//! Applying the companion's answers to a dead-code batch: the findings the
//! checker confirmed used leave their lists, the rest stay in order, and the
//! run records what was asked and how completely it was answered.
use vstd::prelude::*;
use crate::dead_code_queries::{SemanticQuery, UnusedExportFinding, UnusedMemberFinding};
use crate::meta::{
    SemanticCompleteness, SemanticIdentity, SemanticQuerySummary, TypeAwareAbstentionCounts, TypeAwareMeta,
    TypeAwarePhaseTimings, TypeAwareProjectMeta,
};
use crate::semantic_decode::{
    api_totals_cover, attach_or_add_private_type_leak, coupling_error, coupling_evidence_of, coupling_totals_cover,
    decode_type_coupling, leak_step, validate_api_surface_data, ApiLeakData, ApiSurfaceCounts, CouplingAnswer,
    PrivateTypeLeak, TypeCouplingEvidence,
};
use crate::dead_code_queries::query_operation;
use crate::semantic_queries::capability_of;
use crate::semantic_queries::SemanticGapReason;
use crate::text::{copy_str, copy_strings, push_str, string_views_of};
use crate::type_aware::TypeAwareError;
use crate::meta_merge::{merge_capabilities, merged_capabilities};
use crate::semantic_queries::{
    aggregate_completeness, aggregate_of, retain_unconfirmed, statuses_of, tally_dead_code_results,
    tally_matches, unconfirmed, DeadCodeTally, QueryResultFacts, QueryTarget, SemanticCapability,
};

verus! {

/// How many of the queries ask whether a symbol is used.
pub open spec fn symbol_use_count(qs: Seq<SemanticQuery>) -> nat
    decreases qs.len(),
{
    if qs.len() == 0 {
        0
    } else {
        symbol_use_count(qs.drop_last()) + if qs.last() is SymbolUse {
            1nat
        } else {
            0nat
        }
    }
}

/// The summaries of the results that answer a query of the batch (`n`
/// queries), in order.
pub open spec fn answered_summaries(n: nat, rs: Seq<QueryResultFacts>) -> Seq<SemanticQuerySummary>
    decreases rs.len(),
{
    if rs.len() == 0 {
        Seq::empty()
    } else {
        let prev = answered_summaries(n, rs.drop_last());
        if rs.last().query_id < n {
            prev.push(SemanticQuerySummary { query_id: rs.last().query_id, status: rs.last().status })
        } else {
            prev
        }
    }
}

/// The decoded data of the batch's API-surface answer: its counts and the
/// private type leaks it reports.
pub struct ApiSurfaceAnswer {
    pub counts: ApiSurfaceCounts,
    pub leaks: Vec<ApiLeakData>,
}

/// What the companion reported of one TypeScript project.
pub struct ProjectReport {
    pub config: String,
    pub status: SemanticCompleteness,
    pub blocking_diagnostic_count: usize,
    pub source_file_count: usize,
    pub program_reused: bool,
    pub reason_code: Option<SemanticGapReason>,
}

/// What a response says of itself, beside its query results.
pub struct ResponseSummary {
    pub protocol_version: u32,
    pub sidecar_version: String,
    pub backend: String,
    pub backend_version: String,
    pub selected_tsconfigs: Vec<String>,
    pub warnings: Vec<String>,
    pub elapsed_ms: u64,
    pub phase_timings_ms: TypeAwarePhaseTimings,
    pub projects: Vec<ProjectReport>,
}

/// What a dead-code batch's answers produce beside the findings they refine:
/// the tally of the symbol-use answers and the run's metadata.
pub struct DeadCodeRefinement {
    pub tally: DeadCodeTally,
    pub meta: TypeAwareMeta,
}

/// The capabilities the queries exercise, one per query, in order.
pub open spec fn query_capabilities(qs: Seq<SemanticQuery>) -> Seq<SemanticCapability> {
    qs.map_values(|q: SemanticQuery| capability_of(query_operation(q)))
}

fn capabilities_of_queries(qs: &Vec<SemanticQuery>) -> (r: Vec<SemanticCapability>)
    ensures
        r@ == query_capabilities(qs@),
{
    let mut out: Vec<SemanticCapability> = Vec::new();
    let mut i: usize = 0;
    while i < qs.len()
        invariant
            i <= qs@.len(),
            out@ == query_capabilities(qs@).take(i as int),
        decreases qs@.len() - i,
    {
        out.push(qs[i].operation().capability());
        i = i + 1;
        assert(out@ =~= query_capabilities(qs@).take(i as int));
    }
    assert(query_capabilities(qs@).take(qs@.len() as int) =~= query_capabilities(qs@));
    out
}

/// The error of an API-surface answer: it did not decode (`Err` holds the
/// decoder's text), or its totals undercount its arrays.
pub open spec fn api_error(a: Result<ApiSurfaceAnswer, String>) -> Option<Seq<char>> {
    match a {
        Err(t) => Some("failed to decode type-aware API surface: "@ + t@),
        Ok(x) => if api_totals_cover(x.counts) {
            None
        } else {
            Some("type-aware API surface totals are smaller than their returned arrays"@)
        },
    }
}

/// The whole-project query result `r` answers, if any.
pub open spec fn section_of(targets: Seq<QueryTarget>, r: QueryResultFacts) -> Option<QueryTarget> {
    if r.query_id < targets.len() && (targets[r.query_id as int] is ApiSurface || targets[r.query_id as int] is TypeCoupling) {
        Some(targets[r.query_id as int])
    } else {
        None
    }
}

/// The error of the first whole-project answer, in result order, that has
/// one: `api` for the API surface, `coupling` for type coupling.
pub open spec fn section_error(
    targets: Seq<QueryTarget>,
    rs: Seq<QueryResultFacts>,
    api: Option<Seq<char>>,
    coupling: Option<Seq<char>>,
) -> Option<Seq<char>>
    decreases rs.len(),
{
    if rs.len() == 0 {
        None
    } else {
        match section_error(targets, rs.drop_last(), api, coupling) {
            Some(e) => Some(e),
            None => match section_of(targets, rs.last()) {
                Some(QueryTarget::ApiSurface) => api,
                Some(QueryTarget::TypeCoupling) => coupling,
                _ => None,
            },
        }
    }
}

/// Whether some result answers the whole-project query `t`.
pub open spec fn answers_section(targets: Seq<QueryTarget>, rs: Seq<QueryResultFacts>, t: QueryTarget) -> bool {
    exists|j: int| 0 <= j < rs.len() && #[trigger] section_of(targets, rs[j]) == Some(t)
}

/// Whether an API-surface answer is reached, in result order, before any
/// whole-project answer has failed.
pub open spec fn reached_api(
    targets: Seq<QueryTarget>,
    rs: Seq<QueryResultFacts>,
    api: Option<Seq<char>>,
    coupling: Option<Seq<char>>,
) -> bool
    decreases rs.len(),
{
    if rs.len() == 0 {
        false
    } else {
        reached_api(targets, rs.drop_last(), api, coupling) || (section_of(targets, rs.last()) == Some(
            QueryTarget::ApiSurface,
        ) && section_error(targets, rs.drop_last(), api, coupling) is None)
    }
}

/// `out` is `findings` after the evidence of each leak of `wires`, in order:
/// a chain of lists from `findings` to `out`, each step attaching one leak.
pub open spec fn leaks_applied(
    out: Seq<PrivateTypeLeak>,
    findings: Seq<PrivateTypeLeak>,
    root: Seq<char>,
    wires: Seq<ApiLeakData>,
) -> bool {
    exists|chain: Seq<Seq<PrivateTypeLeak>>|
        chain.len() == wires.len() + 1 && chain[0] == findings && chain.last() == out && forall|k: int|
            0 <= k < wires.len() ==> leak_step(#[trigger] chain[k], chain[k + 1], root, wires[k])
}

/// `out` is the run's record of project `p`: its counts of this batch zero.
pub open spec fn project_meta_of(out: TypeAwareProjectMeta, p: ProjectReport) -> bool {
    &&& out.config@ == p.config@
    &&& out.status == p.status
    &&& out.candidate_count == 0
    &&& out.confirmed_used_count == 0
    &&& out.unresolved_count == 0
    &&& out.abstained_count == 0
    &&& out.blocking_diagnostic_count == p.blocking_diagnostic_count
    &&& out.source_file_count == p.source_file_count
    &&& out.program_reused == Some(p.program_reused)
    &&& out.reason_code == p.reason_code
}

/// `out` records each project of `ps`, in order.
pub open spec fn projects_meta_of(out: Seq<TypeAwareProjectMeta>, ps: Seq<ProjectReport>) -> bool {
    &&& out.len() == ps.len()
    &&& forall|i: int| 0 <= i < ps.len() ==> project_meta_of(#[trigger] out[i], ps[i])
}

fn project_records(ps: &Vec<ProjectReport>) -> (r: Vec<TypeAwareProjectMeta>)
    ensures
        projects_meta_of(r@, ps@),
{
    let mut out: Vec<TypeAwareProjectMeta> = Vec::new();
    let mut i: usize = 0;
    while i < ps.len()
        invariant
            i <= ps@.len(),
            out@.len() == i,
            forall|k: int| 0 <= k < i ==> project_meta_of(#[trigger] out@[k], ps@[k]),
        decreases ps@.len() - i,
    {
        let p = &ps[i];
        out.push(
            TypeAwareProjectMeta {
                config: copy_str(p.config.as_str()),
                status: p.status,
                candidate_count: 0,
                confirmed_used_count: 0,
                unresolved_count: 0,
                abstained_count: 0,
                blocking_diagnostic_count: p.blocking_diagnostic_count,
                source_file_count: p.source_file_count,
                program_reused: Some(p.program_reused),
                reason_code: p.reason_code,
            },
        );
        i = i + 1;
    }
    out
}

/// Attach the evidence of each leak of `wires`, in order.
fn apply_leaks(root: &str, findings: Vec<PrivateTypeLeak>, wires: &Vec<ApiLeakData>) -> (r: Vec<PrivateTypeLeak>)
    ensures
        leaks_applied(r@, findings@, root@, wires@),
{
    let ghost f0 = findings@;
    let ghost mut chain: Seq<Seq<PrivateTypeLeak>> = seq![f0];
    let mut cur = findings;
    let mut i: usize = 0;
    while i < wires.len()
        invariant
            i <= wires@.len(),
            chain.len() == i + 1,
            chain[0] == f0,
            chain.last() == cur@,
            forall|k: int| 0 <= k < i ==> leak_step(#[trigger] chain[k], chain[k + 1], root@, wires@[k]),
        decreases wires@.len() - i,
    {
        let ghost prev = cur@;
        attach_or_add_private_type_leak(root, &mut cur, &wires[i]);
        proof {
            let c2 = chain.push(cur@);
            assert forall|k: int| 0 <= k < i + 1 implies leak_step(#[trigger] c2[k], c2[k + 1], root@, wires@[k]) by {
                if k < i {
                    assert(c2[k] == chain[k] && c2[k + 1] == chain[k + 1]);
                } else {
                    assert(c2[k] == prev && c2[k + 1] == cur@);
                }
            }
            chain = c2;
        }
        i = i + 1;
    }
    assert(leaks_applied(cur@, f0, root@, wires@));
    cur
}

/// Which whole-project answer fails first, in result order (`Some(true)`:
/// the API surface, `Some(false)`: type coupling), and whether each was
/// answered at all, and whether an API-surface answer is reached before any
/// failure.
fn scan_sections(
    targets: &Vec<QueryTarget>,
    results: &Vec<QueryResultFacts>,
    api_fails: bool,
    coupling_fails: bool,
) -> (r: (Option<bool>, bool, bool, bool))
    ensures
        forall|ae: Option<Seq<char>>, ce: Option<Seq<char>>|
            (ae is Some <==> api_fails) && (ce is Some <==> coupling_fails) ==> #[trigger] reached_api(
                targets@,
                results@,
                ae,
                ce,
            ) == r.3,
        forall|ae: Option<Seq<char>>, ce: Option<Seq<char>>|
            (ae is Some <==> api_fails) && (ce is Some <==> coupling_fails) ==> #[trigger] section_error(
                targets@,
                results@,
                ae,
                ce,
            ) == match r.0 {
                Some(true) => ae,
                Some(false) => ce,
                None => None::<Seq<char>>,
            },
        r.1 == answers_section(targets@, results@, QueryTarget::ApiSurface),
        r.2 == answers_section(targets@, results@, QueryTarget::TypeCoupling),
        r.0 == Some(true) ==> api_fails,
        r.0 == Some(false) ==> coupling_fails,
        r.0 is None ==> !(api_fails && r.1) && !(coupling_fails && r.2),
{
    let ghost rs = results@;
    let mut first: Option<bool> = None;
    let mut has_api = false;
    let mut has_coupling = false;
    let mut reached = false;
    let mut i: usize = 0;
    while i < results.len()
        invariant
            forall|ae: Option<Seq<char>>, ce: Option<Seq<char>>|
                (ae is Some <==> api_fails) && (ce is Some <==> coupling_fails) ==> #[trigger] reached_api(
                    targets@,
                    rs.take(i as int),
                    ae,
                    ce,
                ) == reached,
            rs == results@,
            i <= rs.len(),
            forall|ae: Option<Seq<char>>, ce: Option<Seq<char>>|
                (ae is Some <==> api_fails) && (ce is Some <==> coupling_fails) ==> #[trigger] section_error(
                    targets@,
                    rs.take(i as int),
                    ae,
                    ce,
                ) == match first {
                    Some(true) => ae,
                    Some(false) => ce,
                    None => None::<Seq<char>>,
                },
            has_api == answers_section(targets@, rs.take(i as int), QueryTarget::ApiSurface),
            has_coupling == answers_section(targets@, rs.take(i as int), QueryTarget::TypeCoupling),
            first == Some(true) ==> api_fails,
            first == Some(false) ==> coupling_fails,
            first is None ==> !(api_fails && has_api) && !(coupling_fails && has_coupling),
        decreases rs.len() - i,
    {
        let ghost t = rs.take(i as int + 1);
        proof {
            assert(t.drop_last() =~= rs.take(i as int));
            assert(t.last() == rs[i as int]);
        }
        let id = results[i].query_id;
        let mut is_api = false;
        let mut is_coupling = false;
        if id < targets.len() {
            match targets[id] {
                QueryTarget::ApiSurface => is_api = true,
                QueryTarget::TypeCoupling => is_coupling = true,
                _ => {},
            }
        }
        proof {
            assert(is_api <==> section_of(targets@, rs[i as int]) == Some(QueryTarget::ApiSurface));
            assert(is_coupling <==> section_of(targets@, rs[i as int]) == Some(QueryTarget::TypeCoupling));
            assert forall|ae: Option<Seq<char>>, ce: Option<Seq<char>>|
                (ae is Some <==> api_fails) && (ce is Some <==> coupling_fails) implies #[trigger] section_error(
                    targets@,
                    t,
                    ae,
                    ce,
                ) == match (if first is None && is_api && api_fails {
                    Some(true)
                } else if first is None && is_coupling && coupling_fails {
                    Some(false)
                } else {
                    first
                }) {
                    Some(true) => ae,
                    Some(false) => ce,
                    None => None::<Seq<char>>,
                } by {
                assert(section_error(targets@, t.drop_last(), ae, ce) == match first {
                    Some(true) => ae,
                    Some(false) => ce,
                    None => None::<Seq<char>>,
                });
            }
            assert forall|ae: Option<Seq<char>>, ce: Option<Seq<char>>|
                (ae is Some <==> api_fails) && (ce is Some <==> coupling_fails) implies #[trigger] reached_api(
                    targets@,
                    t,
                    ae,
                    ce,
                ) == (reached || (is_api && first is None)) by {
                assert(section_error(targets@, t.drop_last(), ae, ce) == match first {
                    Some(true) => ae,
                    Some(false) => ce,
                    None => None::<Seq<char>>,
                });
                assert(reached_api(targets@, t.drop_last(), ae, ce) == reached);
            }
            if is_api {
                assert(section_of(targets@, t[i as int]) == Some(QueryTarget::ApiSurface));
            }
            if is_coupling {
                assert(section_of(targets@, t[i as int]) == Some(QueryTarget::TypeCoupling));
            }
            assert(answers_section(targets@, t, QueryTarget::ApiSurface) == (has_api || is_api)) by {
                if answers_section(targets@, t, QueryTarget::ApiSurface) && !is_api {
                    let j = choose|j: int| 0 <= j < t.len() && #[trigger] section_of(targets@, t[j]) == Some(QueryTarget::ApiSurface);
                    assert(j < i);
                    assert(t[j] == rs.take(i as int)[j]);
                }
                if has_api {
                    let j = choose|j: int| 0 <= j < rs.take(i as int).len() && #[trigger] section_of(targets@, rs.take(i as int)[j]) == Some(QueryTarget::ApiSurface);
                    assert(t[j] == rs.take(i as int)[j]);
                }
            }
            assert(answers_section(targets@, t, QueryTarget::TypeCoupling) == (has_coupling || is_coupling)) by {
                if answers_section(targets@, t, QueryTarget::TypeCoupling) && !is_coupling {
                    let j = choose|j: int| 0 <= j < t.len() && #[trigger] section_of(targets@, t[j]) == Some(QueryTarget::TypeCoupling);
                    assert(j < i);
                    assert(t[j] == rs.take(i as int)[j]);
                }
                if has_coupling {
                    let j = choose|j: int| 0 <= j < rs.take(i as int).len() && #[trigger] section_of(targets@, rs.take(i as int)[j]) == Some(QueryTarget::TypeCoupling);
                    assert(t[j] == rs.take(i as int)[j]);
                }
            }
        }
        reached = reached || (is_api && first.is_none());
        if first.is_none() && is_api && api_fails {
            first = Some(true);
        } else if first.is_none() && is_coupling && coupling_fails {
            first = Some(false);
        }
        has_api = has_api || is_api;
        has_coupling = has_coupling || is_coupling;
        i = i + 1;
    }
    assert(rs.take(rs.len() as int) =~= rs);
    (first, has_api, has_coupling, reached)
}

fn count_symbol_uses(qs: &Vec<SemanticQuery>) -> (n: usize)
    ensures
        n == symbol_use_count(qs@),
{
    let mut n: usize = 0;
    let mut i: usize = 0;
    while i < qs.len()
        invariant
            i <= qs@.len(),
            n == symbol_use_count(qs@.take(i as int)),
            n <= i,
        decreases qs@.len() - i,
    {
        proof {
            assert(qs@.take(i as int + 1).drop_last() =~= qs@.take(i as int));
        }
        match &qs[i] {
            SemanticQuery::SymbolUse { .. } => n = n + 1,
            _ => {},
        }
        i = i + 1;
    }
    assert(qs@.take(qs@.len() as int) =~= qs@);
    n
}

fn summaries(n: usize, results: &Vec<QueryResultFacts>) -> (r: Vec<SemanticQuerySummary>)
    ensures
        r@ == answered_summaries(n as nat, results@),
{
    let mut out: Vec<SemanticQuerySummary> = Vec::new();
    let mut i: usize = 0;
    while i < results.len()
        invariant
            i <= results@.len(),
            out@ == answered_summaries(n as nat, results@.take(i as int)),
        decreases results@.len() - i,
    {
        proof {
            assert(results@.take(i as int + 1).drop_last() =~= results@.take(i as int));
        }
        if results[i].query_id < n {
            out.push(SemanticQuerySummary { query_id: results[i].query_id, status: results[i].status });
        }
        i = i + 1;
    }
    assert(results@.take(results@.len() as int) =~= results@);
    out
}

/// The error of the batch's API-surface answer, if it has one.
pub open spec fn api_error_of(api: Option<Result<ApiSurfaceAnswer, String>>) -> Option<Seq<char>> {
    match api {
        Some(a) => api_error(a),
        None => None,
    }
}

/// The error of the batch's type-coupling answer, if it has one.
pub open spec fn coupling_error_of(coupling: Option<CouplingAnswer>) -> Option<Seq<char>> {
    match coupling {
        Some(a) => coupling_error(a.status, a.data),
        None => None,
    }
}

/// The error a whole-project answer of the batch raises, if any: the first
/// failing one in result order.
pub open spec fn batch_error(
    targets: Seq<QueryTarget>,
    rs: Seq<QueryResultFacts>,
    api: Option<Result<ApiSurfaceAnswer, String>>,
    coupling: Option<CouplingAnswer>,
) -> Option<Seq<char>> {
    section_error(targets, rs, api_error_of(api), coupling_error_of(coupling))
}

/// Whether the API surface's leaks are attached: its answer decoded with
/// sound totals and was reached, in result order, before any failure.
pub open spec fn leaks_attached(
    targets: Seq<QueryTarget>,
    rs: Seq<QueryResultFacts>,
    api: Option<Result<ApiSurfaceAnswer, String>>,
    coupling: Option<CouplingAnswer>,
) -> bool {
    &&& api matches Some(Ok(a)) && api_totals_cover(a.counts)
    &&& reached_api(targets, rs, api_error_of(api), coupling_error_of(coupling))
}

/// Apply the answers `results` to a dead-code batch whose queries are
/// `queries`, standing for `targets`. `api` is the decoded data of the
/// batch's API-surface answer (an `Err` holds the decoder's text), `coupling`
/// its type-coupling answer, and `response` what the response says of itself.
///
/// The answers are taken in result order. The API surface's leaks are
/// attached to `private_type_leaks` in order when its answer is reached
/// before any failure. A whole-project answer that fails to decode, or whose
/// totals undercount what it returned, fails the batch: the first in result
/// order, with the finding lists left as they were (leaks already attached
/// stay). Otherwise the symbol-use answers are tallied, the findings
/// confirmed used leave their lists (the rest keep their order), and the
/// run's metadata records the identity (least complete status, the
/// capabilities asked for once each), a summary of each answer to a known
/// query, the counts, the API surface and coupling report, and the
/// response's own fields and projects.
#[verifier::rlimit(80)]
pub fn apply_dead_code_response(
    root: &str,
    class_members: &mut Vec<UnusedMemberFinding>,
    exports: &mut Vec<UnusedExportFinding>,
    types: &mut Vec<UnusedExportFinding>,
    private_type_leaks: &mut Vec<PrivateTypeLeak>,
    queries: &Vec<SemanticQuery>,
    targets: &Vec<QueryTarget>,
    results: &Vec<QueryResultFacts>,
    requested_capabilities: &Vec<SemanticCapability>,
    api: Option<Result<ApiSurfaceAnswer, String>>,
    coupling: Option<CouplingAnswer>,
    response: ResponseSummary,
) -> (r: Result<DeadCodeRefinement, TypeAwareError>)
    ensures
        if leaks_attached(targets@, results@, api, coupling) {
            leaks_applied(final(private_type_leaks)@, old(private_type_leaks)@, root@, api.unwrap().unwrap().leaks@)
        } else {
            final(private_type_leaks)@ == old(private_type_leaks)@
        },
        match batch_error(targets@, results@, api, coupling) {
            Some(e) => {
                &&& r matches Err(x) && x.0@ == e
                &&& final(class_members)@ == old(class_members)@
                &&& final(exports)@ == old(exports)@
                &&& final(types)@ == old(types)@
            },
            None => r matches Ok(f) && {
                &&& tally_matches(f.tally, targets@, results@)
                &&& final(class_members)@ == unconfirmed(old(class_members)@, f.tally.confirmed_class_members@)
                &&& final(exports)@ == unconfirmed(old(exports)@, f.tally.confirmed_exports@)
                &&& final(types)@ == unconfirmed(old(types)@, f.tally.confirmed_types@)
                &&& if leaks_attached(targets@, results@, api, coupling) {
                    f.meta.api_surface == Some(api.unwrap().unwrap().counts)
                } else {
                    f.meta.api_surface is None
                }
                &&& if answers_section(targets@, results@, QueryTarget::TypeCoupling) && coupling is Some {
                    f.meta.type_coupling matches Some(ev) && coupling_evidence_of(
                        ev,
                        coupling.unwrap(),
                        query_capabilities(queries@),
                    )
                } else {
                    f.meta.type_coupling is None
                }
                &&& f.meta.identity matches Some(id) && id.completeness == aggregate_of(statuses_of(results@))
                    && merged_capabilities(id.capabilities@, Seq::empty(), requested_capabilities@)
                &&& f.meta.queries@ == answered_summaries(targets@.len(), results@)
                &&& f.meta.candidate_count == symbol_use_count(queries@)
                &&& f.meta.confirmed_used_count == f.tally.confirmed_used_count
                &&& f.meta.unresolved_count == f.tally.unresolved_count
                &&& f.meta.abstained_count == f.tally.abstained_count
                &&& f.meta.abstention_reasons == (TypeAwareAbstentionCounts {
                    no_project: f.tally.no_project,
                    blocking_diagnostics: f.tally.blocking_diagnostics,
                    ambiguous_project: f.tally.ambiguous_project,
                })
                &&& f.meta.protocol_version == response.protocol_version
                &&& f.meta.sidecar_version@ == response.sidecar_version@
                &&& f.meta.backend@ == response.backend@
                &&& f.meta.backend_version matches Some(v) && v@ == response.backend_version@
                &&& string_views_of(f.meta.selected_tsconfigs@) == string_views_of(response.selected_tsconfigs@)
                &&& string_views_of(f.meta.warnings@) == string_views_of(response.warnings@)
                &&& f.meta.warning_count == response.warnings@.len()
                &&& f.meta.elapsed_ms == response.elapsed_ms
                &&& f.meta.phase_timings_ms == response.phase_timings_ms
                &&& projects_meta_of(f.meta.projects@, response.projects@)
                &&& f.meta.symbol_traces@.len() == 0
                &&& f.meta.symbol_impacts@.len() == 0
                &&& f.meta.executed
                &&& f.meta.required_completeness is None
                &&& f.meta.contract_preserved_count == 0
                &&& f.meta.no_static_references_count == 0
                &&& f.meta.fix_eligible_count == 0
            },
        },
{
    let ghost api0 = api;
    let ghost cpl0 = coupling;
    let ghost ae: Option<Seq<char>> = api_error_of(api);
    let ghost ce: Option<Seq<char>> = coupling_error_of(coupling);
    let api_checked: Option<Result<ApiSurfaceAnswer, TypeAwareError>> = match api {
        None => None,
        Some(Err(t)) => {
            let mut m = String::new();
            push_str(&mut m, "failed to decode type-aware API surface: ");
            push_str(&mut m, t.as_str());
            Some(Err(TypeAwareError(m)))
        },
        Some(Ok(a)) => match validate_api_surface_data(&a.counts) {
            Ok(()) => Some(Ok(a)),
            Err(e) => Some(Err(e)),
        },
    };
    let capabilities_asked = capabilities_of_queries(queries);
    let coupling_checked: Option<Result<TypeCouplingEvidence, TypeAwareError>> = match coupling {
        None => None,
        Some(a) => Some(decode_type_coupling(a, capabilities_asked)),
    };
    let api_fails = match &api_checked {
        Some(Err(_)) => true,
        _ => false,
    };
    let coupling_fails = match &coupling_checked {
        Some(Err(_)) => true,
        _ => false,
    };
    assert(api_fails <==> ae is Some);
    assert(coupling_fails <==> ce is Some);
    let (first, has_api, has_coupling, api_reached) = scan_sections(targets, results, api_fails, coupling_fails);
    assert(section_error(targets@, results@, ae, ce) == match first {
        Some(true) => ae,
        Some(false) => ce,
        None => None::<Seq<char>>,
    });
    assert(reached_api(targets@, results@, ae, ce) == api_reached);
    let mut api_surface: Option<ApiSurfaceCounts> = None;
    let api_error: Option<TypeAwareError> = match api_checked {
        Some(Ok(a)) => {
            if api_reached {
                let mut leaks_in: Vec<PrivateTypeLeak> = Vec::new();
                std::mem::swap(&mut leaks_in, private_type_leaks);
                let leaks_out = apply_leaks(root, leaks_in, &a.leaks);
                *private_type_leaks = leaks_out;
                api_surface = Some(a.counts);
            }
            None
        },
        Some(Err(e)) => Some(e),
        None => None,
    };
    match first {
        Some(true) => {
            match api_error {
                Some(e) => {
                    return Err(e);
                },
                None => {
                    return Err(TypeAwareError(String::new()));
                },
            }
        },
        Some(false) => {
            match coupling_checked {
                Some(Err(e)) => {
                    return Err(e);
                },
                _ => {
                    return Err(TypeAwareError(String::new()));
                },
            }
        },
        None => {},
    }
    let tally = tally_dead_code_results(targets, results);
    let mut cm: Vec<UnusedMemberFinding> = Vec::new();
    std::mem::swap(&mut cm, class_members);
    *class_members = retain_unconfirmed(cm, &tally.confirmed_class_members);
    let mut ex: Vec<UnusedExportFinding> = Vec::new();
    std::mem::swap(&mut ex, exports);
    *exports = retain_unconfirmed(ex, &tally.confirmed_exports);
    let mut ty: Vec<UnusedExportFinding> = Vec::new();
    std::mem::swap(&mut ty, types);
    *types = retain_unconfirmed(ty, &tally.confirmed_types);
    let type_coupling = if has_coupling {
        match coupling_checked {
            Some(Ok(ev)) => Some(ev),
            _ => None,
        }
    } else {
        None
    };
    let queries_answered = summaries(targets.len(), results);
    let completeness = aggregate_completeness(results);
    let none: Vec<SemanticCapability> = Vec::new();
    let capabilities = merge_capabilities(&none, requested_capabilities);
    let candidate_count = count_symbol_uses(queries);
    let projects = project_records(&response.projects);
    let warning_count = response.warnings.len();
    let meta = TypeAwareMeta {
        required_completeness: None,
        executed: true,
        backend: response.backend,
        backend_version: Some(response.backend_version),
        selected_tsconfigs: response.selected_tsconfigs,
        warning_count,
        warnings: response.warnings,
        identity: Some(SemanticIdentity { completeness, capabilities }),
        queries: queries_answered,
        confirmed_used_count: tally.confirmed_used_count,
        contract_preserved_count: 0,
        no_static_references_count: 0,
        fix_eligible_count: 0,
        unresolved_count: tally.unresolved_count,
        abstained_count: tally.abstained_count,
        elapsed_ms: response.elapsed_ms,
        phase_timings_ms: response.phase_timings_ms,
        protocol_version: response.protocol_version,
        sidecar_version: response.sidecar_version,
        candidate_count,
        abstention_reasons: TypeAwareAbstentionCounts {
            no_project: tally.no_project,
            blocking_diagnostics: tally.blocking_diagnostics,
            ambiguous_project: tally.ambiguous_project,
        },
        projects,
        symbol_traces: Vec::new(),
        symbol_impacts: Vec::new(),
        api_surface,
        type_coupling,
    };
    Ok(DeadCodeRefinement { tally, meta })
}

} // verus!
