//! The batched type-aware semantic protocol, on the facts this crate reads
//! from a response: the checks a response must pass before it is trusted, and
//! the conservative refinement of unused-symbol findings it then drives.
use vstd::prelude::*;
use crate::meta::{SemanticCompleteness, TypeAwareRequire};
use vstd::utf8::encode_utf8;
use sha2::Digest;
use crate::diff_filter::{absolute_under, absolute_under_text, path_absolute, path_strip_prefix, is_absolute_path, strip_path_prefix};
use crate::text::{
    chars_of, char_vec_views, decimal, has_prefix, hex_fixed, lex_le, sorted_distinct, strictly_sorted, push_decimal, push_hex, push_str,
    replace_char, replace_char_str, sort_order, sorted_order, starts_with, str_eq, string_of,
};
use crate::type_aware::TypeAwareError;

verus! {

/// The protocol version this client speaks.
pub const PROTOCOL_VERSION: u32 = 3;

/// The operation name of a batched request.
pub const OPERATION: &'static str = "semantic-queries";

/// The backend family the companion must report.
pub const BACKEND_FAMILY: &'static str = "typescript-go";

/// The backend version the companion must report.
pub const BACKEND_VERSION: &'static str = "7.0.2";

/// The operation of one query.
#[derive(Debug, Clone, Copy, PartialEq, Eq, Structural)]
pub enum SemanticOperation {
    SymbolUse,
    SymbolTrace,
    ApiSurface,
    SymbolImpact,
    TypeCoupling,
}

/// A semantic capability, as run metadata names it.
#[derive(Debug, Clone, Copy, PartialEq, Eq, Structural)]
pub enum SemanticCapability {
    SymbolUse,
    SymbolTrace,
    ApiSurface,
    SymbolImpact,
    TypeCoupling,
}

/// Why a query was answered incompletely, as far as the refinement tells the
/// reasons apart.
#[derive(Debug, Clone, Copy, PartialEq, Eq, Structural)]
pub enum SemanticGapReason {
    NoProject,
    BlockingDiagnostics,
    /// Any other reason the companion gives.
    Other,
}

/// The capability an operation exercises.
pub open spec fn capability_of(op: SemanticOperation) -> SemanticCapability {
    match op {
        SemanticOperation::SymbolUse => SemanticCapability::SymbolUse,
        SemanticOperation::SymbolTrace => SemanticCapability::SymbolTrace,
        SemanticOperation::ApiSurface => SemanticCapability::ApiSurface,
        SemanticOperation::SymbolImpact => SemanticCapability::SymbolImpact,
        SemanticOperation::TypeCoupling => SemanticCapability::TypeCoupling,
    }
}

impl SemanticOperation {
    /// The capability this operation exercises.
    pub fn capability(self) -> (r: SemanticCapability)
        ensures
            r == capability_of(self),
    {
        match self {
            SemanticOperation::SymbolUse => SemanticCapability::SymbolUse,
            SemanticOperation::SymbolTrace => SemanticCapability::SymbolTrace,
            SemanticOperation::ApiSurface => SemanticCapability::ApiSurface,
            SemanticOperation::SymbolImpact => SemanticCapability::SymbolImpact,
            SemanticOperation::TypeCoupling => SemanticCapability::TypeCoupling,
        }
    }
}

/// The identifying fields of a response.
pub struct ResponseHeader {
    pub protocol_version: u32,
    pub operation: String,
    pub sidecar_version: String,
    pub backend: String,
    pub backend_version: String,
}

/// What the checks and the refinement read of one query result.
pub struct QueryResultFacts {
    pub query_id: usize,
    pub operation: SemanticOperation,
    pub assertion: String,
    pub status: SemanticCompleteness,
    pub reason_code: Option<SemanticGapReason>,
    pub action_count: usize,
    pub omission_count: usize,
    /// The number of evidence items returned.
    pub evidence_count: usize,
    /// The number of evidence items there were in all.
    pub total_evidence_count: usize,
}

/// The first thing wrong with a response's identifying fields, if any.
pub open spec fn header_error(h: ResponseHeader, version: Seq<char>) -> Option<Seq<char>> {
    if h.protocol_version != 3 || h.operation@ != "semantic-queries"@ {
        Some(
            "type-aware protocol mismatch: expected 3/semantic-queries, received "@ + decimal(
                h.protocol_version as nat,
            ) + "/"@ + h.operation@,
        )
    } else if h.sidecar_version@ != version {
        Some(
            "type-aware companion version "@ + h.sidecar_version@ + " does not match Fallow "@
                + version + ". Install fallow-type-aware@"@ + version,
        )
    } else if h.backend@ != "typescript-go"@ {
        Some("unsupported type-aware backend "@ + h.backend@)
    } else if h.backend_version@ != "7.0.2"@ {
        Some("unsupported type-aware backend version "@ + h.backend_version@ + "; expected 7.0.2"@)
    } else {
        None
    }
}

/// The query ids the results answer.
pub open spec fn seen_ids(rs: Seq<QueryResultFacts>) -> Set<int> {
    Set::new(|k: int| exists|j: int| 0 <= j < rs.len() && rs[j].query_id == k)
}

/// What is wrong with one result, given the operations the request asked for
/// (query id `k` asked for `expected[k]`) and the ids already answered.
pub open spec fn result_error(
    expected: Seq<SemanticOperation>,
    seen: Set<int>,
    r: QueryResultFacts,
) -> Option<Seq<char>> {
    if r.query_id >= expected.len() {
        Some("type-aware response returned unknown query id "@ + decimal(r.query_id as nat))
    } else if expected[r.query_id as int] != r.operation || seen.contains(r.query_id as int) {
        Some(
            "type-aware response returned a duplicate or mismatched query id "@ + decimal(
                r.query_id as nat,
            ),
        )
    } else if r.total_evidence_count < r.evidence_count {
        Some(
            "type-aware query "@ + decimal(r.query_id as nat)
                + " reported fewer total evidence items than it returned"@,
        )
    } else if r.status != SemanticCompleteness::Complete && (r.reason_code is None
        || r.action_count == 0 || r.omission_count == 0) {
        Some(
            "type-aware query "@ + decimal(r.query_id as nat)
                + " omitted the reason, action, or omission required for an incomplete result"@,
        )
    } else {
        None
    }
}

/// The first result that is wrong, in order, if any.
pub open spec fn results_error(expected: Seq<SemanticOperation>, rs: Seq<QueryResultFacts>) -> Option<
    Seq<char>,
>
    decreases rs.len(),
{
    if rs.len() == 0 {
        None
    } else {
        match results_error(expected, rs.drop_last()) {
            Some(e) => Some(e),
            None => result_error(expected, seen_ids(rs.drop_last()), rs.last()),
        }
    }
}

/// Why a response cannot be trusted, if it cannot: its identifying fields,
/// then each result in order, then a query left without a result.
pub open spec fn response_error(
    expected: Seq<SemanticOperation>,
    h: ResponseHeader,
    rs: Seq<QueryResultFacts>,
    version: Seq<char>,
) -> Option<Seq<char>> {
    match header_error(h, version) {
        Some(e) => Some(e),
        None => match results_error(expected, rs) {
            Some(e) => Some(e),
            None => if exists|k: int| 0 <= k < expected.len() && !seen_ids(rs).contains(k) {
                Some("type-aware response did not classify every query"@)
            } else {
                None
            },
        },
    }
}

fn header_check(h: &ResponseHeader, version: &str) -> (r: Option<String>)
    ensures
        match r {
            Some(m) => header_error(*h, version@) == Some(m@),
            None => header_error(*h, version@) is None,
        },
{
    if h.protocol_version != PROTOCOL_VERSION || !str_eq(h.operation.as_str(), OPERATION) {
        let mut m = String::new();
        push_str(&mut m, "type-aware protocol mismatch: expected 3/semantic-queries, received ");
        push_decimal(&mut m, h.protocol_version as u64);
        push_str(&mut m, "/");
        push_str(&mut m, h.operation.as_str());
        return Some(m);
    }
    if !str_eq(h.sidecar_version.as_str(), version) {
        let mut m = String::new();
        push_str(&mut m, "type-aware companion version ");
        push_str(&mut m, h.sidecar_version.as_str());
        push_str(&mut m, " does not match Fallow ");
        push_str(&mut m, version);
        push_str(&mut m, ". Install fallow-type-aware@");
        push_str(&mut m, version);
        return Some(m);
    }
    if !str_eq(h.backend.as_str(), BACKEND_FAMILY) {
        let mut m = String::new();
        push_str(&mut m, "unsupported type-aware backend ");
        push_str(&mut m, h.backend.as_str());
        return Some(m);
    }
    if !str_eq(h.backend_version.as_str(), BACKEND_VERSION) {
        let mut m = String::new();
        push_str(&mut m, "unsupported type-aware backend version ");
        push_str(&mut m, h.backend_version.as_str());
        push_str(&mut m, "; expected 7.0.2");
        return Some(m);
    }
    None
}

fn result_check(expected: &Vec<SemanticOperation>, seen: &Vec<bool>, r: &QueryResultFacts) -> (out:
    Option<String>)
    requires
        seen@.len() == expected@.len(),
    ensures
        match out {
            Some(m) => result_error(
                expected@,
                Set::new(|k: int| 0 <= k < seen@.len() && seen@[k]),
                *r,
            ) == Some(m@),
            None => result_error(
                expected@,
                Set::new(|k: int| 0 <= k < seen@.len() && seen@[k]),
                *r,
            ) is None,
        },
{
    let id = r.query_id;
    if id >= expected.len() {
        let mut m = String::new();
        push_str(&mut m, "type-aware response returned unknown query id ");
        push_decimal(&mut m, id as u64);
        return Some(m);
    }
    if expected[id] != r.operation || seen[id] {
        let mut m = String::new();
        push_str(&mut m, "type-aware response returned a duplicate or mismatched query id ");
        push_decimal(&mut m, id as u64);
        return Some(m);
    }
    if r.total_evidence_count < r.evidence_count {
        let mut m = String::new();
        push_str(&mut m, "type-aware query ");
        push_decimal(&mut m, id as u64);
        push_str(&mut m, " reported fewer total evidence items than it returned");
        return Some(m);
    }
    let incomplete = match r.status {
        SemanticCompleteness::Complete => false,
        _ => true,
    };
    if incomplete && (r.reason_code.is_none() || r.action_count == 0 || r.omission_count == 0) {
        let mut m = String::new();
        push_str(&mut m, "type-aware query ");
        push_decimal(&mut m, id as u64);
        push_str(
            &mut m,
            " omitted the reason, action, or omission required for an incomplete result",
        );
        return Some(m);
    }
    None
}

/// Check a response against the request before anything in it is trusted.
/// `expected[k]` is the operation of query `k`; `fallow_version` is the
/// version the companion must match. The error is the first problem found:
/// the identifying fields, then each result in order (an unknown id, a repeated
/// or mismatched id, evidence totals below what was returned, an incomplete
/// result without its reason, actions and omissions), then a query that no
/// result answered.
pub fn validate_response(
    expected: &Vec<SemanticOperation>,
    header: &ResponseHeader,
    results: &Vec<QueryResultFacts>,
    fallow_version: &str,
) -> (r: Result<(), TypeAwareError>)
    ensures
        match r {
            Ok(()) => response_error(expected@, *header, results@, fallow_version@) is None,
            Err(e) => response_error(expected@, *header, results@, fallow_version@) == Some(
                e.0@,
            ),
        },
{
    if let Some(m) = header_check(header, fallow_version) {
        return Err(TypeAwareError(m));
    }
    let n = expected.len();
    let mut seen: Vec<bool> = Vec::new();
    let mut k: usize = 0;
    while k < n
        invariant
            n == expected@.len(),
            k <= n,
            seen@.len() == k,
            forall|q: int| 0 <= q < k ==> !seen@[q],
        decreases n - k,
    {
        seen.push(false);
        k = k + 1;
    }
    let ghost rs = results@;
    let mut i: usize = 0;
    assert(seen_ids(rs.take(0)) =~= Set::new(|q: int| 0 <= q < seen@.len() && seen@[q]));
    while i < results.len()
        invariant
            rs == results@,
            n == expected@.len(),
            seen@.len() == n,
            i <= rs.len(),
            header_error(*header, fallow_version@) is None,
            results_error(expected@, rs.take(i as int)) is None,
            seen_ids(rs.take(i as int)) == Set::new(|q: int| 0 <= q < seen@.len() && seen@[q]),
        decreases rs.len() - i,
    {
        let ghost pre = rs.take(i as int);
        let ghost t = rs.take(i as int + 1);
        assert(t.drop_last() =~= pre);
        assert(t.last() == rs[i as int]);
        let r = &results[i];
        if let Some(m) = result_check(expected, &seen, r) {
            proof {
                assert(results_error(expected@, t) == Some(m@));
                lemma_results_error_prefix(expected@, rs, i as int + 1);
            }
            return Err(TypeAwareError(m));
        }
        let id = r.query_id;
        seen.set(id, true);
        proof {
            assert(seen_ids(t) =~= Set::new(|q: int| 0 <= q < seen@.len() && seen@[q])) by {
                assert forall|q: int| #[trigger] seen_ids(t).contains(q) implies 0 <= q < seen@.len()
                    && seen@[q] by {
                    let j = choose|j: int| 0 <= j < t.len() && t[j].query_id == q;
                    if j < i {
                        assert(pre[j].query_id == q);
                        assert(seen_ids(pre).contains(q));
                    }
                }
                assert forall|q: int| 0 <= q < seen@.len() && seen@[q] implies #[trigger] seen_ids(
                    t,
                ).contains(q) by {
                    if q != id {
                        assert(seen_ids(pre).contains(q));
                        let j = choose|j: int| 0 <= j < pre.len() && pre[j].query_id == q;
                        assert(t[j].query_id == q);
                    } else {
                        assert(t[i as int].query_id == q);
                    }
                }
            }
        }
        i = i + 1;
    }
    assert(rs.take(rs.len() as int) =~= rs);
    let mut q: usize = 0;
    while q < n
        invariant
            n == expected@.len(),
            seen@.len() == n,
            q <= n,
            rs == results@,
            header_error(*header, fallow_version@) is None,
            results_error(expected@, rs) is None,
            seen_ids(rs) == Set::new(|x: int| 0 <= x < seen@.len() && seen@[x]),
            forall|x: int| 0 <= x < q ==> seen@[x],
        decreases n - q,
    {
        if !seen[q] {
            proof {
                assert(!seen_ids(rs).contains(q as int));
            }
            let mut m = String::new();
            push_str(&mut m, "type-aware response did not classify every query");
            return Err(TypeAwareError(m));
        }
        q = q + 1;
    }
    proof {
        assert forall|x: int| 0 <= x < expected@.len() implies seen_ids(rs).contains(x) by {
            assert(seen@[x]);
        }
    }
    Ok(())
}

/// Once a prefix of the results is wrong, the whole list is wrong the same way.
proof fn lemma_results_error_prefix(
    expected: Seq<SemanticOperation>,
    rs: Seq<QueryResultFacts>,
    i: int,
)
    requires
        0 <= i <= rs.len(),
        results_error(expected, rs.take(i)) is Some,
    ensures
        results_error(expected, rs) == results_error(expected, rs.take(i)),
    decreases rs.len() - i,
{
    if i == rs.len() {
        assert(rs.take(i) =~= rs);
    } else {
        assert(rs.take(i + 1).drop_last() =~= rs.take(i));
        lemma_results_error_prefix(expected, rs, i + 1);
    }
}


/// What each query of a dead-code batch stands for: a finding of one of the
/// three unused-symbol lists (by its index there), or a whole-project query.
#[derive(Debug, Clone, Copy, PartialEq, Eq, Structural)]
pub enum QueryTarget {
    ClassMember(usize),
    UnusedExport(usize),
    UnusedType(usize),
    ApiSurface,
    TypeCoupling,
}

/// How a symbol-use result counts: confirmed used; unresolved (a complete
/// answer that found no use); or abstained, by reason.
#[derive(Debug, Clone, Copy, PartialEq, Eq, Structural)]
pub enum UseClass {
    Confirmed,
    Unresolved,
    NoProject,
    BlockingDiagnostics,
    AmbiguousProject,
}

/// The class of a symbol-use result.
pub open spec fn use_class(assertion: Seq<char>, status: SemanticCompleteness, reason: Option<
    SemanticGapReason,
>) -> UseClass {
    if assertion == "confirmed-used"@ {
        UseClass::Confirmed
    } else if status == SemanticCompleteness::Complete {
        UseClass::Unresolved
    } else {
        match reason {
            Some(SemanticGapReason::NoProject) => UseClass::NoProject,
            Some(SemanticGapReason::BlockingDiagnostics) => UseClass::BlockingDiagnostics,
            _ => UseClass::AmbiguousProject,
        }
    }
}

/// The class of a result.
pub open spec fn class_of(r: QueryResultFacts) -> UseClass {
    use_class(r.assertion@, r.status, r.reason_code)
}

/// Whether `t` is one of the three unused-symbol targets.
pub open spec fn is_symbol_target(t: QueryTarget) -> bool {
    t is ClassMember || t is UnusedExport || t is UnusedType
}

/// Whether result `r` answers a symbol-use query of `targets`.
pub open spec fn answers_symbol(targets: Seq<QueryTarget>, r: QueryResultFacts) -> bool {
    r.query_id < targets.len() && is_symbol_target(targets[r.query_id as int])
}

/// How many results answer a symbol-use query with class `c`.
pub open spec fn class_count(targets: Seq<QueryTarget>, rs: Seq<QueryResultFacts>, c: UseClass) -> nat
    decreases rs.len(),
{
    if rs.len() == 0 {
        0
    } else {
        class_count(targets, rs.drop_last(), c) + if answers_symbol(targets, rs.last()) && class_of(
            rs.last(),
        ) == c {
            1nat
        } else {
            0nat
        }
    }
}

/// Whether some result confirms that target `t` is used.
pub open spec fn confirmed(targets: Seq<QueryTarget>, rs: Seq<QueryResultFacts>, t: QueryTarget) -> bool {
    exists|j: int|
        0 <= j < rs.len() && rs[j].query_id < targets.len() && targets[rs[j].query_id as int] == t
            && class_of(#[trigger] rs[j]) == UseClass::Confirmed
}

/// The tally of a dead-code batch: the finding indices each list keeps out
/// because the checker confirmed them used, and the counts by class.
pub struct DeadCodeTally {
    pub confirmed_class_members: Vec<usize>,
    pub confirmed_exports: Vec<usize>,
    pub confirmed_types: Vec<usize>,
    pub confirmed_used_count: usize,
    pub unresolved_count: usize,
    pub abstained_count: usize,
    pub no_project: usize,
    pub blocking_diagnostics: usize,
    pub ambiguous_project: usize,
}

/// The tally agrees with the results `rs` for the query targets `targets`.
pub open spec fn tally_matches(t: DeadCodeTally, targets: Seq<QueryTarget>, rs: Seq<QueryResultFacts>) -> bool {
    &&& forall|i: usize| t.confirmed_class_members@.contains(i) <==> confirmed(targets, rs, QueryTarget::ClassMember(i))
    &&& forall|i: usize| t.confirmed_exports@.contains(i) <==> confirmed(targets, rs, QueryTarget::UnusedExport(i))
    &&& forall|i: usize| t.confirmed_types@.contains(i) <==> confirmed(targets, rs, QueryTarget::UnusedType(i))
    &&& t.confirmed_used_count == class_count(targets, rs, UseClass::Confirmed)
    &&& t.unresolved_count == class_count(targets, rs, UseClass::Unresolved)
    &&& t.no_project == class_count(targets, rs, UseClass::NoProject)
    &&& t.blocking_diagnostics == class_count(targets, rs, UseClass::BlockingDiagnostics)
    &&& t.ambiguous_project == class_count(targets, rs, UseClass::AmbiguousProject)
    &&& t.abstained_count == t.no_project + t.blocking_diagnostics + t.ambiguous_project
}

proof fn lemma_class_count_bound(targets: Seq<QueryTarget>, rs: Seq<QueryResultFacts>)
    ensures
        class_count(targets, rs, UseClass::Confirmed) + class_count(targets, rs, UseClass::Unresolved)
            + class_count(targets, rs, UseClass::NoProject) + class_count(
            targets,
            rs,
            UseClass::BlockingDiagnostics,
        ) + class_count(targets, rs, UseClass::AmbiguousProject) <= rs.len(),
    decreases rs.len(),
{
    if rs.len() > 0 {
        lemma_class_count_bound(targets, rs.drop_last());
    }
}

fn classify(assertion: &str, status: SemanticCompleteness, reason: Option<SemanticGapReason>) -> (r: UseClass)
    ensures
        r == use_class(assertion@, status, reason),
{
    if str_eq(assertion, "confirmed-used") {
        UseClass::Confirmed
    } else if status == SemanticCompleteness::Complete {
        UseClass::Unresolved
    } else {
        match reason {
            Some(SemanticGapReason::NoProject) => UseClass::NoProject,
            Some(SemanticGapReason::BlockingDiagnostics) => UseClass::BlockingDiagnostics,
            _ => UseClass::AmbiguousProject,
        }
    }
}

/// Classify the symbol-use results of a validated dead-code batch:
/// `targets[k]` is what query `k` stands for. A result confirmed used keeps
/// its finding out of the report; a complete answer that found no use leaves
/// the finding standing as unresolved; anything else abstains, counted by
/// reason. Results for whole-project queries, or for no known query, count
/// nowhere.
#[verifier::rlimit(60)]
pub fn tally_dead_code_results(targets: &Vec<QueryTarget>, results: &Vec<QueryResultFacts>) -> (t:
    DeadCodeTally)
    ensures
        tally_matches(t, targets@, results@),
{
    let ghost rs = results@;
    let mut t = DeadCodeTally {
        confirmed_class_members: Vec::new(),
        confirmed_exports: Vec::new(),
        confirmed_types: Vec::new(),
        confirmed_used_count: 0,
        unresolved_count: 0,
        abstained_count: 0,
        no_project: 0,
        blocking_diagnostics: 0,
        ambiguous_project: 0,
    };
    let mut i: usize = 0;
    assert(rs.take(0) =~= Seq::<QueryResultFacts>::empty());
    while i < results.len()
        invariant
            rs == results@,
            i <= rs.len(),
            tally_matches(t, targets@, rs.take(i as int)),
        decreases rs.len() - i,
    {
        let ghost pre = rs.take(i as int);
        let ghost nx = rs.take(i as int + 1);
        assert(nx.drop_last() =~= pre);
        assert(nx.last() == rs[i as int]);
        proof {
            lemma_class_count_bound(targets@, pre);
        }
        let r = &results[i];
        let id = r.query_id;
        let ghost old_cm = t.confirmed_class_members@;
        let ghost old_ex = t.confirmed_exports@;
        let ghost old_ty = t.confirmed_types@;
        if id < targets.len() {
            let target = targets[id];
            let symbol = match target {
                QueryTarget::ClassMember(_) | QueryTarget::UnusedExport(_) | QueryTarget::UnusedType(_) => true,
                _ => false,
            };
            if symbol {
                let c = classify(r.assertion.as_str(), r.status, r.reason_code);
                match c {
                    UseClass::Confirmed => {
                        match target {
                            QueryTarget::ClassMember(k) => {
                                t.confirmed_class_members.push(k);
                            },
                            QueryTarget::UnusedExport(k) => {
                                t.confirmed_exports.push(k);
                            },
                            QueryTarget::UnusedType(k) => {
                                t.confirmed_types.push(k);
                            },
                            _ => {},
                        }
                        t.confirmed_used_count = t.confirmed_used_count + 1;
                    },
                    UseClass::Unresolved => {
                        t.unresolved_count = t.unresolved_count + 1;
                    },
                    UseClass::NoProject => {
                        t.abstained_count = t.abstained_count + 1;
                        t.no_project = t.no_project + 1;
                    },
                    UseClass::BlockingDiagnostics => {
                        t.abstained_count = t.abstained_count + 1;
                        t.blocking_diagnostics = t.blocking_diagnostics + 1;
                    },
                    UseClass::AmbiguousProject => {
                        t.abstained_count = t.abstained_count + 1;
                        t.ambiguous_project = t.ambiguous_project + 1;
                    },
                }
            }
        }
        proof {
            lemma_tally_step(targets@, pre, rs[i as int]);
            assert(nx =~= pre.push(rs[i as int]));
            assert(t.confirmed_used_count == class_count(targets@, nx, UseClass::Confirmed));
            assert(t.unresolved_count == class_count(targets@, nx, UseClass::Unresolved));
            assert(t.no_project == class_count(targets@, nx, UseClass::NoProject));
            assert forall|k: usize| t.confirmed_class_members@.contains(k) <==> confirmed(targets@, nx, QueryTarget::ClassMember(k)) by {
                assert(old_cm.contains(k) <==> confirmed(targets@, pre, QueryTarget::ClassMember(k)));
                assert(confirmed(targets@, pre.push(rs[i as int]), QueryTarget::ClassMember(k)) <==> (confirmed(targets@, pre, QueryTarget::ClassMember(k)) || (
                    rs[i as int].query_id < targets@.len() && targets@[rs[i as int].query_id as int] == QueryTarget::ClassMember(k) && class_of(rs[i as int]) == UseClass::Confirmed)));
                if t.confirmed_class_members@ != old_cm {
                    vstd::seq_lib::lemma_seq_contains_after_push(old_cm, t.confirmed_class_members@.last(), k);
                    assert(t.confirmed_class_members@ == old_cm.push(t.confirmed_class_members@.last()));
                }
            }
            assert forall|k: usize| t.confirmed_exports@.contains(k) <==> confirmed(targets@, nx, QueryTarget::UnusedExport(k)) by {
                assert(old_ex.contains(k) <==> confirmed(targets@, pre, QueryTarget::UnusedExport(k)));
                assert(confirmed(targets@, pre.push(rs[i as int]), QueryTarget::UnusedExport(k)) <==> (confirmed(targets@, pre, QueryTarget::UnusedExport(k)) || (
                    rs[i as int].query_id < targets@.len() && targets@[rs[i as int].query_id as int] == QueryTarget::UnusedExport(k) && class_of(rs[i as int]) == UseClass::Confirmed)));
                if t.confirmed_exports@ != old_ex {
                    vstd::seq_lib::lemma_seq_contains_after_push(old_ex, t.confirmed_exports@.last(), k);
                    assert(t.confirmed_exports@ == old_ex.push(t.confirmed_exports@.last()));
                }
            }
            assert forall|k: usize| t.confirmed_types@.contains(k) <==> confirmed(targets@, nx, QueryTarget::UnusedType(k)) by {
                assert(old_ty.contains(k) <==> confirmed(targets@, pre, QueryTarget::UnusedType(k)));
                assert(confirmed(targets@, pre.push(rs[i as int]), QueryTarget::UnusedType(k)) <==> (confirmed(targets@, pre, QueryTarget::UnusedType(k)) || (
                    rs[i as int].query_id < targets@.len() && targets@[rs[i as int].query_id as int] == QueryTarget::UnusedType(k) && class_of(rs[i as int]) == UseClass::Confirmed)));
                if t.confirmed_types@ != old_ty {
                    vstd::seq_lib::lemma_seq_contains_after_push(old_ty, t.confirmed_types@.last(), k);
                    assert(t.confirmed_types@ == old_ty.push(t.confirmed_types@.last()));
                }
            }
        }
        i = i + 1;
    }
    assert(rs.take(rs.len() as int) =~= rs);
    t
}

proof fn lemma_tally_step(targets: Seq<QueryTarget>, pre: Seq<QueryResultFacts>, r: QueryResultFacts)
    ensures
        forall|x: QueryTarget| #[trigger] confirmed(targets, pre.push(r), x) <==> (confirmed(targets, pre, x) || (
            r.query_id < targets.len() && targets[r.query_id as int] == x && class_of(r) == UseClass::Confirmed)),
        pre.push(r).drop_last() == pre,
{
    let nx = pre.push(r);
    assert(nx.drop_last() =~= pre);
    assert forall|x: QueryTarget| #[trigger] confirmed(targets, nx, x) <==> (confirmed(targets, pre, x) || (
        r.query_id < targets.len() && targets[r.query_id as int] == x && class_of(r) == UseClass::Confirmed)) by {
        if confirmed(targets, nx, x) {
            let j = choose|j: int|
                0 <= j < nx.len() && nx[j].query_id < targets.len() && targets[nx[j].query_id as int] == x
                    && class_of(#[trigger] nx[j]) == UseClass::Confirmed;
            if j < pre.len() {
                assert(nx[j] == pre[j]);
            }
        }
        if confirmed(targets, pre, x) {
            let j = choose|j: int|
                0 <= j < pre.len() && pre[j].query_id < targets.len() && targets[pre[j].query_id as int] == x
                    && class_of(#[trigger] pre[j]) == UseClass::Confirmed;
            assert(nx[j] == pre[j]);
        }
        if r.query_id < targets.len() && targets[r.query_id as int] == x && class_of(r) == UseClass::Confirmed {
            assert(nx[pre.len() as int] == r);
        }
    }
}


/// The items whose index `confirmed` does not hold, in order.
pub open spec fn unconfirmed<T>(items: Seq<T>, confirmed: Seq<usize>) -> Seq<T>
    decreases items.len(),
{
    if items.len() == 0 {
        Seq::empty()
    } else {
        let prev = unconfirmed(items.drop_last(), confirmed);
        if confirmed.contains((items.len() - 1) as usize) {
            prev
        } else {
            prev.push(items.last())
        }
    }
}

fn holds_index(v: &Vec<usize>, x: usize) -> (r: bool)
    ensures
        r == v@.contains(x),
{
    let mut i: usize = 0;
    while i < v.len()
        invariant
            i <= v.len(),
            forall|q: int| 0 <= q < i ==> v@[q] != x,
        decreases v.len() - i,
    {
        if v[i] == x {
            return true;
        }
        i = i + 1;
    }
    false
}

/// Drop the findings the checker confirmed used, keeping the rest in order.
pub fn retain_unconfirmed<T>(items: Vec<T>, confirmed: &Vec<usize>) -> (r: Vec<T>)
    ensures
        r@ == unconfirmed(items@, confirmed@),
{
    let ghost orig = items@;
    let n = items.len();
    let mut stack = items;
    let mut rev: Vec<T> = Vec::new();
    while stack.len() > 0
        invariant
            orig.len() == n,
            stack@ == orig.take(stack@.len() as int),
            rev@.len() + stack@.len() == n,
            forall|q: int| 0 <= q < rev@.len() ==> rev@[q] == orig[n - 1 - q],
        decreases stack@.len(),
    {
        let ghost before = stack@;
        let x = stack.pop().unwrap();
        assert(x == orig[before.len() - 1]);
        assert(stack@ =~= orig.take(stack@.len() as int));
        rev.push(x);
    }
    let mut out: Vec<T> = Vec::new();
    let mut k: usize = 0;
    assert(orig.take(0) =~= Seq::<T>::empty());
    while k < n
        invariant
            orig.len() == n,
            k <= n,
            rev@.len() == n - k,
            forall|q: int| 0 <= q < rev@.len() ==> rev@[q] == orig[n - 1 - q],
            out@ == unconfirmed(orig.take(k as int), confirmed@),
        decreases n - k,
    {
        let x = rev.pop().unwrap();
        assert(x == orig[k as int]);
        let ghost t = orig.take(k as int + 1);
        assert(t.drop_last() =~= orig.take(k as int));
        assert(t.last() == orig[k as int]);
        if !holds_index(confirmed, k) {
            out.push(x);
        }
        k = k + 1;
    }
    assert(orig.take(n as int) =~= orig);
    out
}

/// The least complete status among the results: unavailable if any is,
/// else partial if any is, else complete.
pub open spec fn aggregate_of(statuses: Seq<SemanticCompleteness>) -> SemanticCompleteness {
    if exists|j: int| 0 <= j < statuses.len() && statuses[j] == SemanticCompleteness::Unavailable {
        SemanticCompleteness::Unavailable
    } else if exists|j: int| 0 <= j < statuses.len() && statuses[j] == SemanticCompleteness::Partial {
        SemanticCompleteness::Partial
    } else {
        SemanticCompleteness::Complete
    }
}

/// The statuses of the results, in order.
pub open spec fn statuses_of(rs: Seq<QueryResultFacts>) -> Seq<SemanticCompleteness> {
    rs.map_values(|r: QueryResultFacts| r.status)
}

/// The completeness of a whole batch: the least complete of its results.
pub fn aggregate_completeness(results: &Vec<QueryResultFacts>) -> (r: SemanticCompleteness)
    ensures
        r == aggregate_of(statuses_of(results@)),
{
    let ghost st = statuses_of(results@);
    let mut unavailable = false;
    let mut partial = false;
    let mut i: usize = 0;
    while i < results.len()
        invariant
            st == statuses_of(results@),
            i <= results.len(),
            unavailable <==> exists|j: int| 0 <= j < i && st[j] == SemanticCompleteness::Unavailable,
            partial <==> exists|j: int| 0 <= j < i && st[j] == SemanticCompleteness::Partial,
        decreases results.len() - i,
    {
        assert(st[i as int] == results@[i as int].status);
        match results[i].status {
            SemanticCompleteness::Unavailable => unavailable = true,
            SemanticCompleteness::Partial => partial = true,
            SemanticCompleteness::Complete => {},
        }
        i = i + 1;
    }
    if unavailable {
        SemanticCompleteness::Unavailable
    } else if partial {
        SemanticCompleteness::Partial
    } else {
        SemanticCompleteness::Complete
    }
}

/// The order of completeness, most complete first.
pub open spec fn completeness_rank(c: SemanticCompleteness) -> nat {
    match c {
        SemanticCompleteness::Complete => 0,
        SemanticCompleteness::Partial => 1,
        SemanticCompleteness::Unavailable => 2,
    }
}

/// The rank of a completeness: complete 0, partial 1, unavailable 2.
pub fn semantic_completeness_rank(c: SemanticCompleteness) -> (r: u8)
    ensures
        r == completeness_rank(c),
{
    match c {
        SemanticCompleteness::Complete => 0,
        SemanticCompleteness::Partial => 1,
        SemanticCompleteness::Unavailable => 2,
    }
}

/// The completeness of two merged batches: the overlay's when it ranks
/// below the base's, else the base's.
pub open spec fn merged_completeness(base: SemanticCompleteness, overlay: SemanticCompleteness) -> SemanticCompleteness {
    if completeness_rank(overlay) > completeness_rank(base) {
        overlay
    } else {
        base
    }
}

/// The completeness of two merged batches: the less complete one, so a
/// merge never reports more certainty than either part had.
pub fn merge_completeness(base: SemanticCompleteness, overlay: SemanticCompleteness) -> (r: SemanticCompleteness)
    ensures
        r == merged_completeness(base, overlay),
        r == SemanticCompleteness::Complete <==> (base == SemanticCompleteness::Complete && overlay
            == SemanticCompleteness::Complete),
        r == SemanticCompleteness::Unavailable <==> (base == SemanticCompleteness::Unavailable || overlay
            == SemanticCompleteness::Unavailable),
{
    if semantic_completeness_rank(overlay) > semantic_completeness_rank(base) {
        overlay
    } else {
        base
    }
}

/// The completeness order runs from complete, through partial, to
/// unavailable, each strictly less complete than the one before.
pub proof fn law_completeness_is_ranked_complete_partial_unavailable()
    ensures
        completeness_rank(SemanticCompleteness::Complete) < completeness_rank(SemanticCompleteness::Partial),
        completeness_rank(SemanticCompleteness::Partial) < completeness_rank(SemanticCompleteness::Unavailable),
{
}

/// Merging two completenesses keeps the less complete one: the merge is
/// complete only when both parts are, unavailable when either part is, and
/// partial otherwise; it is one of the two parts, does not depend on which
/// is the base, and agrees with the completeness of a batch holding both.
pub proof fn law_merge_keeps_the_least_complete(a: SemanticCompleteness, b: SemanticCompleteness)
    ensures
        merged_completeness(a, b) == SemanticCompleteness::Complete <==> (a == SemanticCompleteness::Complete
            && b == SemanticCompleteness::Complete),
        merged_completeness(a, b) == SemanticCompleteness::Unavailable <==> (a
            == SemanticCompleteness::Unavailable || b == SemanticCompleteness::Unavailable),
        merged_completeness(a, b) == SemanticCompleteness::Partial <==> ((a == SemanticCompleteness::Partial
            || b == SemanticCompleteness::Partial) && a != SemanticCompleteness::Unavailable && b
            != SemanticCompleteness::Unavailable),
        merged_completeness(a, b) == a || merged_completeness(a, b) == b,
        merged_completeness(a, b) == merged_completeness(b, a),
        merged_completeness(a, b) == aggregate_of(seq![a, b]),
{
    let s = seq![a, b];
    assert(s[0] == a && s[1] == b);
}

/// How a completeness prints in an error.
pub open spec fn completeness_text(c: SemanticCompleteness) -> Seq<char> {
    match c {
        SemanticCompleteness::Complete => "Complete"@,
        SemanticCompleteness::Partial => "Partial"@,
        SemanticCompleteness::Unavailable => "Unavailable"@,
    }
}

/// Refuse an incomplete result when complete answers are required; the error
/// names the result's assertion and status.
pub fn enforce_requirement(require: TypeAwareRequire, assertion: &str, status: SemanticCompleteness) -> (r:
    Result<(), TypeAwareError>)
    ensures
        (require == TypeAwareRequire::Complete && status != SemanticCompleteness::Complete) ==> (r matches Err(
            e,
        ) && e.0@ == "type-aware completeness is required, but "@ + assertion@ + " was "@
            + completeness_text(status)),
        !(require == TypeAwareRequire::Complete && status != SemanticCompleteness::Complete) ==> r is Ok,
{
    let required = match require {
        TypeAwareRequire::Complete => true,
        TypeAwareRequire::BestEffort => false,
    };
    let complete = match status {
        SemanticCompleteness::Complete => true,
        _ => false,
    };
    if required && !complete {
        let mut m = String::new();
        push_str(&mut m, "type-aware completeness is required, but ");
        push_str(&mut m, assertion);
        push_str(&mut m, " was ");
        match status {
            SemanticCompleteness::Complete => push_str(&mut m, "Complete"),
            SemanticCompleteness::Partial => push_str(&mut m, "Partial"),
            SemanticCompleteness::Unavailable => push_str(&mut m, "Unavailable"),
        }
        return Err(TypeAwareError(m));
    }
    Ok(())
}


/// Two lowercase hex digits per byte, in order.
pub open spec fn hex_bytes(bytes: Seq<u8>) -> Seq<char>
    decreases bytes.len(),
{
    if bytes.len() == 0 {
        Seq::empty()
    } else {
        hex_bytes(bytes.drop_last()) + hex_fixed(bytes.last() as nat, 2)
    }
}

/// The bytes as lowercase hex, two digits each.
pub fn digest_hex(bytes: &[u8]) -> (r: String)
    ensures
        r@ == hex_bytes(bytes@),
{
    let mut r = String::new();
    let mut i: usize = 0;
    while i < bytes.len()
        invariant
            i <= bytes@.len(),
            r@ == hex_bytes(bytes@.take(i as int)),
        decreases bytes@.len() - i,
    {
        let ghost t = bytes@.take(i as int + 1);
        assert(t.drop_last() =~= bytes@.take(i as int));
        assert(t.last() == bytes@[i as int]);
        push_hex(&mut r, bytes[i] as u64, 2);
        i = i + 1;
    }
    assert(bytes@.take(bytes@.len() as int) =~= bytes@);
    r
}

/// The SHA-256 digest of `bytes`.
pub uninterp spec fn sha256(bytes: Seq<u8>) -> Seq<u8>;

/// Calls `sha2::Sha256::digest` on `bytes`: the digest is named, not stated;
/// it is 32 bytes long, as SHA-256 output always is.
#[verifier::external_body]
fn sha256_digest(bytes: &[u8]) -> (r: Vec<u8>)
    ensures
        r@ == sha256(bytes@),
        r@.len() == 32,
{
    sha2::Sha256::digest(bytes).to_vec()
}

fn append_bytes(out: &mut Vec<u8>, b: &[u8])
    ensures
        final(out)@ == old(out)@ + b@,
{
    let ghost start = out@;
    let mut i: usize = 0;
    while i < b.len()
        invariant
            i <= b@.len(),
            out@ == start + b@.take(i as int),
        decreases b@.len() - i,
    {
        out.push(b[i]);
        i = i + 1;
        assert(out@ =~= start + b@.take(i as int));
    }
    assert(b@.take(b@.len() as int) =~= b@);
}

/// What one project config contributes to the identity hash: its name, then
/// the file's bytes when the name is a path (not a `<placeholder>`) and the
/// file could be read.
pub open spec fn config_part(config: Seq<char>, content: Option<Seq<u8>>) -> Seq<u8> {
    encode_utf8(config) + if !has_prefix(config, "<"@) && content is Some {
        content->0
    } else {
        Seq::empty()
    }
}

/// The hashed message: every config's part, in the order `order` gives.
pub open spec fn config_message(
    configs: Seq<Seq<char>>,
    contents: Seq<Option<Seq<u8>>>,
    order: Seq<usize>,
) -> Seq<u8>
    decreases order.len(),
{
    if order.len() == 0 {
        Seq::empty()
    } else {
        config_message(configs, contents, order.drop_last()) + config_part(
            configs[order.last() as int],
            contents[order.last() as int],
        )
    }
}

/// The views of the file contents read for each config.
pub open spec fn content_views(contents: Seq<Option<Vec<u8>>>) -> Seq<Option<Seq<u8>>> {
    contents.map_values(|c: Option<Vec<u8>>| match c {
        Some(v) => Some(v@),
        None => None,
    })
}

/// The views of a vector of strings.
pub open spec fn views_of(v: Seq<String>) -> Seq<Seq<char>> {
    v.map_values(|s: String| s@)
}

/// The hash that identifies the project configs a semantic run used:
/// `sha256:` and the hex SHA-256 of every config, in sorted order, followed by
/// its file's bytes. `contents[k]` is what reading config `k` gave, if it
/// could be read; it is not consulted for a `<placeholder>` name.
pub fn project_config_hash(configs: &Vec<String>, contents: &Vec<Option<Vec<u8>>>) -> (r: String)
    requires
        configs@.len() == contents@.len(),
    ensures
        exists|order: Seq<usize>|
            sorted_order(views_of(configs@), order) && r@ == "sha256:"@ + hex_bytes(
                sha256(config_message(views_of(configs@), content_views(contents@), order)),
            ),
{
    let ghost cv = views_of(configs@);
    let ghost tv = content_views(contents@);
    let n = configs.len();
    let mut keys: Vec<Vec<char>> = Vec::new();
    let mut i: usize = 0;
    while i < n
        invariant
            n == configs@.len(),
            cv == views_of(configs@),
            i <= n,
            keys@.len() == i,
            forall|q: int| 0 <= q < i ==> (#[trigger] keys@[q])@ == cv[q],
        decreases n - i,
    {
        keys.push(chars_of(configs[i].as_str()));
        i = i + 1;
    }
    assert(char_vec_views(keys@) =~= cv);
    let order = sort_order(&keys);
    let mut msg: Vec<u8> = Vec::new();
    let mut k: usize = 0;
    assert(order@.take(0) =~= Seq::<usize>::empty());
    while k < order.len()
        invariant
            n == configs@.len(),
            n == contents@.len(),
            cv == views_of(configs@),
            tv == content_views(contents@),
            sorted_order(cv, order@),
            k <= order@.len(),
            msg@ == config_message(cv, tv, order@.take(k as int)),
        decreases order@.len() - k,
    {
        let idx = order[k];
        assert(order@[k as int] < n);
        let config = &configs[idx];
        let ghost before = msg@;
        append_bytes(&mut msg, config.as_str().as_bytes());
        let placeholder = starts_with(config.as_str(), "<");
        if !placeholder {
            if let Some(b) = &contents[idx] {
                append_bytes(&mut msg, b.as_slice());
            }
        }
        proof {
            let t = order@.take(k as int + 1);
            assert(t.drop_last() =~= order@.take(k as int));
            assert(t.last() == idx);
            assert(cv[idx as int] == configs@[idx as int]@);
            assert(tv[idx as int] == match contents@[idx as int] {
                Some(v) => Some(v@),
                None => None,
            });
            assert(msg@ =~= before + config_part(cv[idx as int], tv[idx as int]));
        }
        k = k + 1;
    }
    assert(order@.take(order@.len() as int) =~= order@);
    let digest = sha256_digest(msg.as_slice());
    let hex = digest_hex(digest.as_slice());
    let mut r = String::new();
    push_str(&mut r, "sha256:");
    push_str(&mut r, hex.as_str());
    assert(r@ =~= "sha256:"@ + hex_bytes(sha256(config_message(cv, tv, order@))));
    r
}


/// How a configured project is named in the identity: relative to the root
/// when it is an absolute path below it, with `\` written as `/`.
pub open spec fn normalized_project(project: Seq<char>, root: Seq<char>) -> Seq<char> {
    let relative = if path_absolute(project) {
        match path_strip_prefix(project, root) {
            Some(rest) => rest,
            None => project,
        }
    } else {
        project
    };
    replace_char(relative, '\\', "/"@)
}

fn normalize_project(project: &str, root: &str) -> (r: String)
    ensures
        r@ == normalized_project(project@, root@),
{
    if is_absolute_path(project) {
        match strip_path_prefix(project, root) {
            Some(rest) => replace_char_str(rest.as_str(), '\\', "/"),
            None => replace_char_str(project, '\\', "/"),
        }
    } else {
        replace_char_str(project, '\\', "/")
    }
}

/// Whether a config string is a placeholder (it starts with `<`, as
/// `<auto>` does) rather than the name of a file.
pub open spec fn is_placeholder_config(config: Seq<char>) -> bool {
    config.len() > 0 && config[0] == '<'
}

/// The file whose contents the identity hash reads for `config`: none for a
/// placeholder, else the config made absolute under `root`.
pub fn config_read_path(root: &str, config: &str) -> (r: Option<String>)
    ensures
        is_placeholder_config(config@) ==> r is None,
        !is_placeholder_config(config@) ==> (r matches Some(p) && p@ == absolute_under_text(root@, config@)),
{
    if config.unicode_len() > 0 && config.get_char(0) == '<' {
        None
    } else {
        Some(absolute_under(root, config))
    }
}

/// The project configs a semantic identity names: with none configured,
/// `tsconfig.json` when the root has one and `<auto>` otherwise; else the
/// configured projects normalized, sorted, and without repeats.
pub fn identity_project_config_strings(root: &str, projects: &Vec<String>, root_has_tsconfig: bool) -> (r:
    Vec<String>)
    ensures
        projects@.len() == 0 ==> r@.len() == 1 && r@[0]@ == (if root_has_tsconfig {
            "tsconfig.json"@
        } else {
            "<auto>"@
        }),
        projects@.len() > 0 ==> strictly_sorted(views_of(r@)),
        projects@.len() > 0 ==> forall|x: Seq<char>| #[trigger] views_of(r@).contains(x) <==> exists|k: int|
            0 <= k < projects@.len() && normalized_project(projects@[k]@, root@) == x,
{
    if projects.len() == 0 {
        let mut name = String::new();
        if root_has_tsconfig {
            push_str(&mut name, "tsconfig.json");
        } else {
            push_str(&mut name, "<auto>");
        }
        let mut r: Vec<String> = Vec::new();
        r.push(name);
        return r;
    }
    let n = projects.len();
    let mut keys: Vec<Vec<char>> = Vec::new();
    let mut i: usize = 0;
    while i < n
        invariant
            n == projects@.len(),
            i <= n,
            keys@.len() == i,
            forall|q: int| 0 <= q < i ==> (#[trigger] keys@[q])@ == normalized_project(projects@[q]@, root@),
        decreases n - i,
    {
        let name = normalize_project(projects[i].as_str(), root);
        keys.push(chars_of(name.as_str()));
        i = i + 1;
    }
    let ghost ks = char_vec_views(keys@);
    let distinct = sorted_distinct(&keys);
    let ghost ds = char_vec_views(distinct@);
    let mut out: Vec<String> = Vec::new();
    let mut j: usize = 0;
    while j < distinct.len()
        invariant
            ds == char_vec_views(distinct@),
            j <= distinct@.len(),
            views_of(out@) == ds.take(j as int),
        decreases distinct@.len() - j,
    {
        let s = string_of(&distinct[j]);
        assert(ds[j as int] == distinct@[j as int]@);
        let ghost before = out@;
        assert(views_of(before).len() == before.len());
        assert(before.len() == j);
        out.push(s);
        assert(out@ == before.push(s));
        assert(views_of(out@) =~= ds.take(j as int + 1)) by {
            assert forall|q: int| 0 <= q < j + 1 implies views_of(out@)[q] == ds.take(j as int + 1)[q] by {
                if q < j {
                    assert(views_of(out@)[q] == before[q]@);
                    assert(views_of(before)[q] == before[q]@);
                }
            }
        }
        j = j + 1;
    }
    assert(ds.take(ds.len() as int) =~= ds);
    proof {
        assert forall|x: Seq<char>| #[trigger] views_of(out@).contains(x) <==> exists|m: int|
            0 <= m < projects@.len() && normalized_project(projects@[m]@, root@) == x by {
            if ks.contains(x) {
                let m = choose|m: int| 0 <= m < ks.len() && ks[m] == x;
                assert(ks[m] == keys@[m]@);
            }
            if exists|m: int| 0 <= m < projects@.len() && normalized_project(projects@[m]@, root@) == x {
                let m = choose|m: int| 0 <= m < projects@.len() && normalized_project(projects@[m]@, root@) == x;
                assert(ks[m] == keys@[m]@);
                assert(ks.contains(x));
            }
        }
    }
    out
}

} // verus!
