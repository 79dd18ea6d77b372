//! What the library keeps of a decoded symbol-trace answer: the references
//! whose namespace the companion named, refused when the answer's totals are
//! smaller than the evidence it returned.
use vstd::prelude::*;
use crate::dead_code_queries::{SemanticNamespace, SemanticSymbol};
use crate::meta::SemanticCompleteness;
use crate::semantic_decode::unavailable_project;
use crate::text::{copy_str, push_str};
use crate::type_aware::TypeAwareError;

verus! {

/// One piece of reference evidence as the companion reports it. `H` is the
/// alias hop the reference was reached through, carried as it came.
#[derive(Debug)]
pub struct SemanticReferenceData<H> {
    pub path: String,
    pub line: u32,
    pub col: u32,
    pub role: String,
    pub namespace: Option<SemanticNamespace>,
    pub via: Vec<H>,
}

/// The decoded data of a symbol-trace answer.
#[derive(Debug)]
pub struct SymbolTraceData<H> {
    pub symbol: SemanticSymbol,
    pub selected_project: String,
    pub alias_hops: Vec<H>,
    pub total_alias_hop_count: usize,
    pub checker_evidence_count: usize,
    pub graph_evidence_count: usize,
}

/// A checker-backed reference to the traced symbol.
#[derive(Debug)]
pub struct SemanticReference<H> {
    pub path: String,
    pub line: u32,
    pub col: u32,
    pub role: String,
    pub namespace: SemanticNamespace,
    pub via: Vec<H>,
}

/// The trace of a symbol.
#[derive(Debug)]
pub struct SymbolTrace<H> {
    pub target: SemanticSymbol,
    pub selected_project: String,
    pub status: SemanticCompleteness,
    pub references: Vec<SemanticReference<H>>,
    pub total_reference_count: usize,
    pub checker_evidence_count: usize,
    pub graph_evidence_count: usize,
}

/// The totals of a trace answer are at least the evidence it returned:
/// alias hops against their total and against the graph evidence, and the
/// checker evidence against the answer's evidence total.
pub open spec fn trace_totals_cover<H>(d: SymbolTraceData<H>, total_evidence_count: usize) -> bool {
    &&& d.total_alias_hop_count >= d.alias_hops@.len()
    &&& total_evidence_count >= d.checker_evidence_count
    &&& d.graph_evidence_count >= d.alias_hops@.len()
}

/// `out` is `e` as a reference in namespace `ns`.
pub open spec fn reference_of<H>(out: SemanticReference<H>, e: SemanticReferenceData<H>, ns: SemanticNamespace) -> bool {
    &&& out.path@ == e.path@
    &&& out.line == e.line
    &&& out.col == e.col
    &&& out.role@ == e.role@
    &&& out.namespace == ns
    &&& out.via@ == e.via@
}

/// `out` holds, in order, one reference for each piece of evidence that
/// decoded and names a namespace; the rest is dropped.
pub open spec fn references_of<H>(out: Seq<SemanticReference<H>>, ev: Seq<Option<SemanticReferenceData<H>>>) -> bool
    decreases ev.len(),
{
    if ev.len() == 0 {
        out.len() == 0
    } else {
        match ev.last() {
            Some(e) => match e.namespace {
                Some(ns) => out.len() > 0 && reference_of(out.last(), e, ns) && references_of(
                    out.drop_last(),
                    ev.drop_last(),
                ),
                None => references_of(out, ev.drop_last()),
            },
            None => references_of(out, ev.drop_last()),
        }
    }
}

/// The references for a trace answer's evidence, each piece given as it
/// decoded (`None` where it did not).
pub fn trace_references<H>(evidence: Vec<Option<SemanticReferenceData<H>>>) -> (r: Vec<SemanticReference<H>>)
    ensures
        references_of(r@, evidence@),
{
    let ghost ev = evidence@;
    let mut rest = evidence;
    let mut out: Vec<SemanticReference<H>> = Vec::new();
    let mut i: usize = 0;
    let n = rest.len();
    assert(ev.take(0) =~= Seq::<Option<SemanticReferenceData<H>>>::empty());
    while i < n
        invariant
            n == ev.len(),
            i <= n,
            rest@ == ev.subrange(i as int, n as int),
            references_of(out@, ev.take(i as int)),
        decreases n - i,
    {
        let item = rest.remove(0);
        let ghost t = ev.take(i as int + 1);
        proof {
            assert(t.drop_last() =~= ev.take(i as int));
            assert(t.last() == ev[i as int]);
            assert(item == ev[i as int]);
            assert(rest@ =~= ev.subrange(i as int + 1, n as int));
        }
        let ghost before = out@;
        match item {
            Some(e) => match e.namespace {
                Some(ns) => {
                    out.push(
                        SemanticReference {
                            path: e.path,
                            line: e.line,
                            col: e.col,
                            role: e.role,
                            namespace: ns,
                            via: e.via,
                        },
                    );
                    assert(out@.drop_last() =~= before);
                },
                None => {},
            },
            None => {},
        }
        i = i + 1;
    }
    assert(ev.take(n as int) =~= ev);
    out
}

/// The trace for a symbol-trace answer of completeness `status`, whose
/// evidence total is `total_evidence_count`. An unavailable answer reports
/// no references for `target`, in the first selected project; any other
/// needs its data (`data` holds the decoder's error text when it could not
/// be decoded), and its totals must cover the evidence returned.
pub fn decode_symbol_trace<H>(
    status: SemanticCompleteness,
    selected_tsconfigs: &Vec<String>,
    target: SemanticSymbol,
    total_evidence_count: usize,
    data: Result<SymbolTraceData<H>, String>,
    evidence: Vec<Option<SemanticReferenceData<H>>>,
) -> (r: Result<SymbolTrace<H>, TypeAwareError>)
    ensures
        status == SemanticCompleteness::Unavailable ==> (r matches Ok(t) && t.target == target
            && t.selected_project@ == unavailable_project(selected_tsconfigs@) && t.status == status
            && t.references@.len() == 0 && t.total_reference_count == 0 && t.checker_evidence_count
            == 0 && t.graph_evidence_count == 0),
        status != SemanticCompleteness::Unavailable ==> match data {
            Err(text) => r matches Err(e) && e.0@ == "failed to decode type-aware symbol trace: "@
                + text@,
            Ok(d) => if trace_totals_cover(d, total_evidence_count) {
                r matches Ok(t) && t.target == d.symbol && t.selected_project@ == d.selected_project@
                    && t.status == status && references_of(t.references@, evidence@)
                    && t.total_reference_count == d.checker_evidence_count
                    && t.checker_evidence_count == d.checker_evidence_count
                    && t.graph_evidence_count == d.graph_evidence_count
            } else {
                r matches Err(e) && e.0@
                    == "type-aware symbol trace totals are smaller than returned evidence"@
            },
        },
{
    match status {
        SemanticCompleteness::Unavailable => {
            let selected_project = if selected_tsconfigs.len() > 0 {
                copy_str(selected_tsconfigs[0].as_str())
            } else {
                copy_str("<unavailable>")
            };
            return Ok(
                SymbolTrace {
                    target,
                    selected_project,
                    status,
                    references: Vec::new(),
                    total_reference_count: 0,
                    checker_evidence_count: 0,
                    graph_evidence_count: 0,
                },
            );
        },
        _ => {},
    }
    let d = match data {
        Ok(d) => d,
        Err(text) => {
            let mut m = String::new();
            push_str(&mut m, "failed to decode type-aware symbol trace: ");
            push_str(&mut m, text.as_str());
            return Err(TypeAwareError(m));
        },
    };
    if d.total_alias_hop_count < d.alias_hops.len() || total_evidence_count
        < d.checker_evidence_count || d.graph_evidence_count < d.alias_hops.len() {
        return Err(
            TypeAwareError(
                copy_str("type-aware symbol trace totals are smaller than returned evidence"),
            ),
        );
    }
    let references = trace_references(evidence);
    Ok(
        SymbolTrace {
            target: d.symbol,
            selected_project: d.selected_project,
            status,
            references,
            total_reference_count: d.checker_evidence_count,
            checker_evidence_count: d.checker_evidence_count,
            graph_evidence_count: d.graph_evidence_count,
        },
    )
}

} // verus!
