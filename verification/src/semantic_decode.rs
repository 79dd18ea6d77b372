//! What the library keeps of a decoded symbol-impact or type-coupling answer:
//! the evidence the companion returned, refused when its totals are smaller
//! than the evidence itself, and shaped into the report's paths and edges.
use vstd::prelude::*;
use crate::dead_code_queries::{
    all_project_relative, entry_point_texts, first_refusal, namespace_label, namespace_name,
    protocol_entry_points, SemanticNamespace, SemanticQuery, SemanticSymbol,
};
use crate::semantic_queries::QueryResultFacts;
use crate::diff_filter::{join_path, path_eq, path_joined, same_path};
use crate::meta::{SemanticCompleteness, SemanticIdentity};
use crate::semantic_queries::SemanticCapability;
use crate::text::{copy_str, copy_strings, push_str, string_views_of};
use crate::type_aware::TypeAwareError;

verus! {

/// A path the companion reached, with the chain of files that led to it.
#[derive(Debug)]
pub struct ImpactPathData {
    pub path: String,
    pub provenance: Vec<String>,
}

/// A file that uses the symbol directly.
#[derive(Debug)]
pub struct DirectConsumerData {
    pub path: String,
    pub namespace: SemanticNamespace,
}

/// The decoded data of a symbol-impact answer.
#[derive(Debug)]
pub struct SymbolImpactData {
    pub symbol: SemanticSymbol,
    pub selected_project: String,
    pub direct_consumers: Vec<DirectConsumerData>,
    pub total_direct_consumer_count: usize,
    pub transitive_affected_files: Vec<ImpactPathData>,
    pub total_transitive_affected_file_count: usize,
    pub targeted_tests: Vec<ImpactPathData>,
    pub total_targeted_test_count: usize,
    pub confidence: String,
}

/// One path of an impact report: how it relates to the symbol, and how far
/// away it is.
#[derive(Debug)]
pub struct SemanticImpactPath {
    pub path: String,
    pub relation: String,
    pub distance: usize,
    pub via: Vec<String>,
}

/// The impact of changing a symbol.
#[derive(Debug)]
pub struct SymbolImpact {
    pub target: SemanticSymbol,
    pub selected_project: String,
    pub status: SemanticCompleteness,
    pub direct_consumers: Vec<SemanticImpactPath>,
    pub total_direct_consumer_count: usize,
    pub affected_files: Vec<SemanticImpactPath>,
    pub total_affected_file_count: usize,
    pub targeted_tests: Vec<SemanticImpactPath>,
    pub total_targeted_test_count: usize,
    pub confidence: String,
}

/// `out` is `d` as a path of relation `relation`: its distance is the length
/// of its provenance, at least one, and the provenance is kept as `via`.
pub open spec fn impact_path_of(out: SemanticImpactPath, d: ImpactPathData, relation: Seq<char>) -> bool {
    &&& out.path@ == d.path@
    &&& out.relation@ == relation
    &&& out.distance == (if d.provenance@.len() > 1 {
        d.provenance@.len() as usize
    } else {
        1
    })
    &&& string_views_of(out.via@) == string_views_of(d.provenance@)
}

/// `out` holds each of `ds` as a path of relation `relation`, in order.
pub open spec fn impact_paths_of(out: Seq<SemanticImpactPath>, ds: Seq<ImpactPathData>, relation: Seq<char>) -> bool {
    &&& out.len() == ds.len()
    &&& forall|i: int| 0 <= i < ds.len() ==> impact_path_of(#[trigger] out[i], ds[i], relation)
}

/// The relation of a direct consumer in namespace `ns`.
pub open spec fn direct_relation(ns: SemanticNamespace) -> Seq<char> {
    "direct-"@ + namespace_label(ns) + "-consumer"@
}

/// `out` holds each consumer at distance one, with no provenance.
pub open spec fn direct_consumers_of(out: Seq<SemanticImpactPath>, ds: Seq<DirectConsumerData>) -> bool {
    &&& out.len() == ds.len()
    &&& forall|i: int|
        0 <= i < ds.len() ==> {
            let p = #[trigger] out[i];
            &&& p.path@ == ds[i].path@
            &&& p.relation@ == direct_relation(ds[i].namespace)
            &&& p.distance == 1
            &&& p.via@.len() == 0
        }
}

/// Each path of `paths` as a path of relation `relation`.
pub fn impact_paths(paths: &Vec<ImpactPathData>, relation: &str) -> (r: Vec<SemanticImpactPath>)
    ensures
        impact_paths_of(r@, paths@, relation@),
{
    let mut out: Vec<SemanticImpactPath> = Vec::new();
    let mut i: usize = 0;
    while i < paths.len()
        invariant
            i <= paths@.len(),
            out@.len() == i,
            forall|j: int| 0 <= j < i ==> impact_path_of(#[trigger] out@[j], paths@[j], relation@),
        decreases paths@.len() - i,
    {
        let d = &paths[i];
        let n = d.provenance.len();
        let distance = if n > 1 {
            n
        } else {
            1
        };
        out.push(
            SemanticImpactPath {
                path: copy_str(d.path.as_str()),
                relation: copy_str(relation),
                distance,
                via: copy_strings(&d.provenance),
            },
        );
        i = i + 1;
    }
    out
}

/// Each direct consumer at distance one.
fn direct_consumers(ds: &Vec<DirectConsumerData>) -> (r: Vec<SemanticImpactPath>)
    ensures
        direct_consumers_of(r@, ds@),
{
    let mut out: Vec<SemanticImpactPath> = Vec::new();
    let mut i: usize = 0;
    while i < ds.len()
        invariant
            i <= ds@.len(),
            out@.len() == i,
            forall|j: int|
                0 <= j < i ==> {
                    let p = #[trigger] out@[j];
                    &&& p.path@ == ds@[j].path@
                    &&& p.relation@ == direct_relation(ds@[j].namespace)
                    &&& p.distance == 1
                    &&& p.via@.len() == 0
                },
        decreases ds@.len() - i,
    {
        let d = &ds[i];
        let mut relation = String::new();
        push_str(&mut relation, "direct-");
        push_str(&mut relation, namespace_name(d.namespace));
        push_str(&mut relation, "-consumer");
        assert(relation@ =~= direct_relation(d.namespace));
        out.push(
            SemanticImpactPath {
                path: copy_str(d.path.as_str()),
                relation,
                distance: 1,
                via: Vec::new(),
            },
        );
        i = i + 1;
    }
    out
}

/// The totals of an impact answer are at least the paths it returned.
pub open spec fn impact_totals_cover(d: SymbolImpactData) -> bool {
    &&& d.total_direct_consumer_count >= d.direct_consumers@.len()
    &&& d.total_transitive_affected_file_count >= d.transitive_affected_files@.len()
    &&& d.total_targeted_test_count >= d.targeted_tests@.len()
}

/// The project an unavailable answer reports: the first selected config, or
/// `<unavailable>`.
pub open spec fn unavailable_project(selected: Seq<String>) -> Seq<char> {
    if selected.len() > 0 {
        selected[0]@
    } else {
        "<unavailable>"@
    }
}

/// The impact report for a symbol-impact answer of completeness `status`.
/// An unavailable answer reports nothing found, for `target`, with
/// `unavailable` confidence; any other needs its data (`data` holds the
/// decoder's error text when it could not be decoded), and its totals must
/// cover the paths returned.
pub fn decode_symbol_impact(
    status: SemanticCompleteness,
    selected_tsconfigs: &Vec<String>,
    target: SemanticSymbol,
    data: Result<SymbolImpactData, String>,
) -> (r: Result<SymbolImpact, TypeAwareError>)
    ensures
        status == SemanticCompleteness::Unavailable ==> (r matches Ok(imp) && imp.target == target
            && imp.selected_project@ == unavailable_project(selected_tsconfigs@) && imp.status
            == status && imp.direct_consumers@.len() == 0 && imp.total_direct_consumer_count == 0
            && imp.affected_files@.len() == 0 && imp.total_affected_file_count == 0
            && imp.targeted_tests@.len() == 0 && imp.total_targeted_test_count == 0
            && imp.confidence@ == "unavailable"@),
        status != SemanticCompleteness::Unavailable ==> match data {
            Err(text) => r matches Err(e) && e.0@ == "failed to decode type-aware symbol impact: "@
                + text@,
            Ok(d) => if impact_totals_cover(d) {
                r matches Ok(imp) && imp.target == d.symbol && imp.selected_project@
                    == d.selected_project@ && imp.status == status && direct_consumers_of(
                    imp.direct_consumers@,
                    d.direct_consumers@,
                ) && imp.total_direct_consumer_count == d.total_direct_consumer_count
                    && impact_paths_of(
                    imp.affected_files@,
                    d.transitive_affected_files@,
                    "transitive-consumer"@,
                ) && imp.total_affected_file_count == d.total_transitive_affected_file_count
                    && impact_paths_of(imp.targeted_tests@, d.targeted_tests@, "targeted-test"@)
                    && imp.total_targeted_test_count == d.total_targeted_test_count
                    && imp.confidence@ == d.confidence@
            } else {
                r matches Err(e) && e.0@
                    == "type-aware symbol impact totals are smaller than returned paths"@
            },
        },
{
    match status {
        SemanticCompleteness::Unavailable => {
            let selected_project = if selected_tsconfigs.len() > 0 {
                copy_str(selected_tsconfigs[0].as_str())
            } else {
                copy_str("<unavailable>")
            };
            return Ok(
                SymbolImpact {
                    target,
                    selected_project,
                    status,
                    direct_consumers: Vec::new(),
                    total_direct_consumer_count: 0,
                    affected_files: Vec::new(),
                    total_affected_file_count: 0,
                    targeted_tests: Vec::new(),
                    total_targeted_test_count: 0,
                    confidence: copy_str("unavailable"),
                },
            );
        },
        _ => {},
    }
    let d = match data {
        Ok(d) => d,
        Err(text) => {
            let mut m = String::new();
            push_str(&mut m, "failed to decode type-aware symbol impact: ");
            push_str(&mut m, text.as_str());
            return Err(TypeAwareError(m));
        },
    };
    if d.total_direct_consumer_count < d.direct_consumers.len()
        || d.total_transitive_affected_file_count < d.transitive_affected_files.len()
        || d.total_targeted_test_count < d.targeted_tests.len() {
        return Err(
            TypeAwareError(copy_str("type-aware symbol impact totals are smaller than returned paths")),
        );
    }
    let direct = direct_consumers(&d.direct_consumers);
    let affected = impact_paths(&d.transitive_affected_files, "transitive-consumer");
    let tests = impact_paths(&d.targeted_tests, "targeted-test");
    Ok(
        SymbolImpact {
            target: d.symbol,
            selected_project: d.selected_project,
            status,
            direct_consumers: direct,
            total_direct_consumer_count: d.total_direct_consumer_count,
            affected_files: affected,
            total_affected_file_count: d.total_transitive_affected_file_count,
            targeted_tests: tests,
            total_targeted_test_count: d.total_targeted_test_count,
            confidence: d.confidence,
        },
    )
}

/// A coupled file as the companion reports it.
#[derive(Debug)]
pub struct CoupledFileData {
    pub path: String,
    pub outgoing_label: String,
    pub outgoing_files: Vec<String>,
    pub total_outgoing_file_count: usize,
    pub incoming_label: String,
    pub incoming_files: Vec<String>,
    pub total_incoming_file_count: usize,
}

/// Where an edge's evidence sits.
#[derive(Debug)]
pub struct EvidenceLocation {
    pub path: String,
    pub line: u32,
    pub col: u32,
}

/// One public-API type edge between two symbols.
#[derive(Debug)]
pub struct TypeCouplingEdgeData {
    pub source: SemanticSymbol,
    pub target: SemanticSymbol,
    pub relation: String,
    pub evidence: EvidenceLocation,
}

/// The decoded data of a type-coupling answer: its evidence and totals, and
/// whether its two optional percentages were present. The percentage and
/// percentile figures themselves are not held here; the caller keeps them.
#[derive(Debug)]
pub struct TypeCouplingData {
    pub scope: String,
    pub direction: String,
    pub project_size: usize,
    pub files_analyzed: usize,
    pub distinct_coupled_files: usize,
    pub edge_count: usize,
    pub coupled_file_percentage_present: bool,
    pub high_coupling_percentage_present: bool,
    pub files: Vec<CoupledFileData>,
    pub total_file_count: usize,
    pub top_contributors: Vec<CoupledFileData>,
    pub edges: Vec<TypeCouplingEdgeData>,
    pub cycles: Vec<Vec<String>>,
    pub total_cycle_count: usize,
}

/// A coupled file of the report, with the edges that touch it (by their
/// position in the report's edge list).
#[derive(Debug)]
pub struct TypeCouplingFile {
    pub path: String,
    pub edges: Vec<usize>,
    pub public_api_depends_on: usize,
    pub public_api_depends_on_files: Vec<String>,
    pub public_types_used_by: usize,
    pub public_types_used_by_files: Vec<String>,
}

/// The summary of a type-coupling report, without its percentage and
/// percentile figures.
#[derive(Debug)]
pub struct TypeCouplingSummary {
    pub scope: String,
    pub direction: String,
    pub project_size: usize,
    pub files_analyzed: usize,
    pub distinct_coupled_files: usize,
    pub edge_count: usize,
    pub cycle_count: usize,
}

/// A type-coupling answer as the companion returned it: its completeness,
/// assertion, omissions and actions (as their serialized text), and its
/// decoded data (`Err` holds the decoder's text).
#[derive(Debug)]
pub struct CouplingAnswer {
    pub status: SemanticCompleteness,
    pub assertion: String,
    pub omissions: Vec<String>,
    pub actions: Vec<String>,
    pub data: Result<TypeCouplingData, String>,
}

/// The evidence of a type-coupling report.
#[derive(Debug)]
pub struct TypeCouplingEvidence {
    pub identity: SemanticIdentity,
    pub assertion: String,
    pub status: SemanticCompleteness,
    pub summary: Option<TypeCouplingSummary>,
    pub omissions: Vec<String>,
    pub actions: Vec<String>,
    pub scope: String,
    pub files: Vec<TypeCouplingFile>,
    pub top_contributors: Vec<TypeCouplingFile>,
    pub edges: Vec<TypeCouplingEdgeData>,
    pub cycles: Vec<Vec<String>>,
}

/// The label of a file's outgoing list.
pub const OUTGOING_LABEL: &'static str = "public API depends on";

/// The label of a file's incoming list.
pub const INCOMING_LABEL: &'static str = "public types used by";

/// A file's totals cover its lists, and its lists carry the expected labels.
pub open spec fn file_totals_cover(f: CoupledFileData) -> bool {
    &&& f.total_outgoing_file_count >= f.outgoing_files@.len()
    &&& f.total_incoming_file_count >= f.incoming_files@.len()
    &&& f.outgoing_label@ == OUTGOING_LABEL@
    &&& f.incoming_label@ == INCOMING_LABEL@
}

/// The totals of a coupling answer cover the evidence it returned.
pub open spec fn coupling_totals_cover(d: TypeCouplingData) -> bool {
    &&& d.total_file_count >= d.files@.len()
    &&& d.edge_count >= d.edges@.len()
    &&& d.total_cycle_count >= d.cycles@.len()
    &&& forall|i: int| 0 <= i < d.files@.len() ==> file_totals_cover(#[trigger] d.files@[i])
    &&& forall|i: int| 0 <= i < d.top_contributors@.len() ==> file_totals_cover(#[trigger] d.top_contributors@[i])
}

/// An edge touches a file when either end lies in it (paths compared as
/// `Path`s).
pub open spec fn touches(e: TypeCouplingEdgeData, path: Seq<char>) -> bool {
    path_eq(e.source.path@, path) || path_eq(e.target.path@, path)
}

/// The positions, in order, of the first `n` edges that touch `path`.
pub open spec fn touching_edges(edges: Seq<TypeCouplingEdgeData>, path: Seq<char>, n: nat) -> Seq<usize>
    decreases n,
{
    if n == 0 {
        Seq::empty()
    } else {
        let prev = touching_edges(edges, path, (n - 1) as nat);
        if touches(edges[n - 1], path) {
            prev.push((n - 1) as usize)
        } else {
            prev
        }
    }
}

/// `out` is `d` in the report, with the edges of `edges` that touch it.
pub open spec fn coupling_file_of(out: TypeCouplingFile, d: CoupledFileData, edges: Seq<TypeCouplingEdgeData>) -> bool {
    &&& out.path@ == d.path@
    &&& out.edges@ == touching_edges(edges, d.path@, edges.len())
    &&& out.public_api_depends_on == d.total_outgoing_file_count
    &&& string_views_of(out.public_api_depends_on_files@) == string_views_of(d.outgoing_files@)
    &&& out.public_types_used_by == d.total_incoming_file_count
    &&& string_views_of(out.public_types_used_by_files@) == string_views_of(d.incoming_files@)
}

/// `out` holds each of `ds` in the report, in order.
pub open spec fn coupling_files_of(out: Seq<TypeCouplingFile>, ds: Seq<CoupledFileData>, edges: Seq<TypeCouplingEdgeData>) -> bool {
    &&& out.len() == ds.len()
    &&& forall|i: int| 0 <= i < ds.len() ==> coupling_file_of(#[trigger] out[i], ds[i], edges)
}

fn file_totals_check(f: &CoupledFileData) -> (r: bool)
    ensures
        r == file_totals_cover(*f),
{
    f.total_outgoing_file_count >= f.outgoing_files.len() && f.total_incoming_file_count
        >= f.incoming_files.len() && crate::text::str_eq(f.outgoing_label.as_str(), OUTGOING_LABEL)
        && crate::text::str_eq(f.incoming_label.as_str(), INCOMING_LABEL)
}

fn files_totals_check(fs: &Vec<CoupledFileData>) -> (r: bool)
    ensures
        r == forall|i: int| 0 <= i < fs@.len() ==> file_totals_cover(#[trigger] fs@[i]),
{
    let mut i: usize = 0;
    while i < fs.len()
        invariant
            i <= fs@.len(),
            forall|j: int| 0 <= j < i ==> file_totals_cover(#[trigger] fs@[j]),
        decreases fs@.len() - i,
    {
        if !file_totals_check(&fs[i]) {
            return false;
        }
        i = i + 1;
    }
    true
}

/// The positions of the edges that touch `path`.
fn touching(edges: &Vec<TypeCouplingEdgeData>, path: &str) -> (r: Vec<usize>)
    ensures
        r@ == touching_edges(edges@, path@, edges@.len()),
{
    let mut out: Vec<usize> = Vec::new();
    let mut i: usize = 0;
    while i < edges.len()
        invariant
            i <= edges@.len(),
            out@ == touching_edges(edges@, path@, i as nat),
        decreases edges@.len() - i,
    {
        let e = &edges[i];
        if same_path(e.source.path.as_str(), path) || same_path(e.target.path.as_str(), path) {
            out.push(i);
        }
        i = i + 1;
    }
    out
}

/// Each coupled file in the report.
fn coupling_files(ds: &Vec<CoupledFileData>, edges: &Vec<TypeCouplingEdgeData>) -> (r: Vec<TypeCouplingFile>)
    ensures
        coupling_files_of(r@, ds@, edges@),
{
    let mut out: Vec<TypeCouplingFile> = Vec::new();
    let mut i: usize = 0;
    while i < ds.len()
        invariant
            i <= ds@.len(),
            out@.len() == i,
            forall|j: int| 0 <= j < i ==> coupling_file_of(#[trigger] out@[j], ds@[j], edges@),
        decreases ds@.len() - i,
    {
        let d = &ds[i];
        out.push(
            TypeCouplingFile {
                path: copy_str(d.path.as_str()),
                edges: touching(edges, d.path.as_str()),
                public_api_depends_on: d.total_outgoing_file_count,
                public_api_depends_on_files: copy_strings(&d.outgoing_files),
                public_types_used_by: d.total_incoming_file_count,
                public_types_used_by_files: copy_strings(&d.incoming_files),
            },
        );
        i = i + 1;
    }
    out
}

/// `s` is the summary of `d`: present exactly when both percentages were,
/// holding the data's scope, direction and sizes and its total cycle count.
pub open spec fn summary_of(s: Option<TypeCouplingSummary>, d: TypeCouplingData) -> bool {
    if d.high_coupling_percentage_present && d.coupled_file_percentage_present {
        s matches Some(x) && x.scope@ == d.scope@ && x.direction@ == d.direction@ && x.project_size
            == d.project_size && x.files_analyzed == d.files_analyzed && x.distinct_coupled_files
            == d.distinct_coupled_files && x.edge_count == d.edge_count && x.cycle_count == d.total_cycle_count
    } else {
        s is None
    }
}

/// The error a type-coupling answer of completeness `status` raises: its
/// data did not decode, or its totals undercount what it returned. An
/// unavailable answer raises none.
pub open spec fn coupling_error(status: SemanticCompleteness, data: Result<TypeCouplingData, String>) -> Option<Seq<char>> {
    if status == SemanticCompleteness::Unavailable {
        None
    } else {
        match data {
            Err(t) => Some("failed to decode type-aware coupling: "@ + t@),
            Ok(d) => if coupling_totals_cover(d) {
                None
            } else {
                Some("type-aware coupling totals are smaller than returned evidence"@)
            },
        }
    }
}

/// `ev` is the evidence answer `a` yields for a request whose queries
/// exercise `capabilities`: its identity (the answer's completeness and those
/// capabilities), assertion, status, omissions and actions; nothing else for
/// an unavailable answer; else the data's summary, scope, files (each with
/// the edges that touch it), edges and cycles.
pub open spec fn coupling_evidence_of(ev: TypeCouplingEvidence, a: CouplingAnswer, capabilities: Seq<SemanticCapability>) -> bool {
    &&& ev.identity.completeness == a.status
    &&& ev.identity.capabilities@ == capabilities
    &&& ev.assertion@ == a.assertion@
    &&& ev.status == a.status
    &&& string_views_of(ev.omissions@) == string_views_of(a.omissions@)
    &&& string_views_of(ev.actions@) == string_views_of(a.actions@)
    &&& if a.status == SemanticCompleteness::Unavailable {
        ev.summary is None && ev.scope@.len() == 0 && ev.files@.len() == 0 && ev.top_contributors@.len() == 0
            && ev.edges@.len() == 0 && ev.cycles@.len() == 0
    } else {
        match a.data {
            Ok(d) => summary_of(ev.summary, d) && ev.scope@ == d.scope@ && coupling_files_of(
                ev.files@,
                d.files@,
                d.edges@,
            ) && coupling_files_of(ev.top_contributors@, d.top_contributors@, d.edges@) && ev.edges@ == d.edges@
                && ev.cycles@ == d.cycles@,
            Err(_) => false,
        }
    }
}

/// The report of type-coupling answer `a`, for a request whose queries
/// exercise `capabilities`. An unavailable answer has no evidence; any other
/// needs its data, whose totals must cover what it returned. Each file keeps
/// the edges that touch it; the summary is there when both percentages were.
pub fn decode_type_coupling(a: CouplingAnswer, capabilities: Vec<SemanticCapability>) -> (r: Result<
    TypeCouplingEvidence,
    TypeAwareError,
>)
    ensures
        match coupling_error(a.status, a.data) {
            Some(e) => r matches Err(x) && x.0@ == e,
            None => r matches Ok(ev) && coupling_evidence_of(ev, a, capabilities@),
        },
{
    let identity = SemanticIdentity { completeness: a.status, capabilities };
    match a.status {
        SemanticCompleteness::Unavailable => {
            return Ok(
                TypeCouplingEvidence {
                    identity,
                    assertion: a.assertion,
                    status: a.status,
                    summary: None,
                    omissions: a.omissions,
                    actions: a.actions,
                    scope: String::new(),
                    files: Vec::new(),
                    top_contributors: Vec::new(),
                    edges: Vec::new(),
                    cycles: Vec::new(),
                },
            );
        },
        _ => {},
    }
    let d = match a.data {
        Ok(d) => d,
        Err(text) => {
            let mut m = String::new();
            push_str(&mut m, "failed to decode type-aware coupling: ");
            push_str(&mut m, text.as_str());
            return Err(TypeAwareError(m));
        },
    };
    if d.total_file_count < d.files.len() || d.edge_count < d.edges.len() || d.total_cycle_count
        < d.cycles.len() || !files_totals_check(&d.files) || !files_totals_check(&d.top_contributors) {
        return Err(
            TypeAwareError(copy_str("type-aware coupling totals are smaller than returned evidence")),
        );
    }
    let files = coupling_files(&d.files, &d.edges);
    let top_contributors = coupling_files(&d.top_contributors, &d.edges);
    let summary = if d.high_coupling_percentage_present && d.coupled_file_percentage_present {
        Some(
            TypeCouplingSummary {
                scope: copy_str(d.scope.as_str()),
                direction: copy_str(d.direction.as_str()),
                project_size: d.project_size,
                files_analyzed: d.files_analyzed,
                distinct_coupled_files: d.distinct_coupled_files,
                edge_count: d.edge_count,
                cycle_count: d.total_cycle_count,
            },
        )
    } else {
        None
    };
    Ok(
        TypeCouplingEvidence {
            identity,
            assertion: a.assertion,
            status: a.status,
            summary,
            omissions: a.omissions,
            actions: a.actions,
            scope: d.scope,
            files,
            top_contributors,
            edges: d.edges,
            cycles: d.cycles,
        },
    )
}

/// The sizes of an API-surface answer: each total the companion reports
/// beside the number of items it returned.
#[derive(Debug, Clone, Copy)]
pub struct ApiEntryCounts {
    pub total_referenced_type_count: usize,
    pub referenced_type_count: usize,
}

/// The totals of an API-surface answer and the lengths of its arrays.
#[derive(Debug)]
pub struct ApiSurfaceCounts {
    pub total_export_count: usize,
    pub export_count: usize,
    pub total_entry_count: usize,
    pub entries: Vec<ApiEntryCounts>,
    pub total_leak_count: usize,
    pub leak_count: usize,
    pub total_public_signature_edge_count: usize,
    pub public_signature_edge_count: usize,
}

/// Every total covers its array, each entry's referenced types included.
pub open spec fn api_totals_cover(c: ApiSurfaceCounts) -> bool {
    &&& c.total_export_count >= c.export_count
    &&& c.total_entry_count >= c.entries@.len()
    &&& c.total_leak_count >= c.leak_count
    &&& c.total_public_signature_edge_count >= c.public_signature_edge_count
    &&& forall|i: int|
        0 <= i < c.entries@.len() ==> #[trigger] c.entries@[i].total_referenced_type_count
            >= c.entries@[i].referenced_type_count
}

/// Refuse an API-surface answer whose totals are smaller than what it
/// returned.
pub fn validate_api_surface_data(c: &ApiSurfaceCounts) -> (r: Result<(), TypeAwareError>)
    ensures
        r is Ok <==> api_totals_cover(*c),
        r matches Err(e) ==> e.0@ == "type-aware API surface totals are smaller than their returned arrays"@,
{
    let mut ok = c.total_export_count >= c.export_count && c.total_entry_count >= c.entries.len()
        && c.total_leak_count >= c.leak_count && c.total_public_signature_edge_count
        >= c.public_signature_edge_count;
    let mut i: usize = 0;
    while i < c.entries.len()
        invariant
            i <= c.entries@.len(),
            ok ==> forall|j: int|
                0 <= j < i ==> #[trigger] c.entries@[j].total_referenced_type_count
                    >= c.entries@[j].referenced_type_count,
            !ok ==> !api_totals_cover(*c),
            ok ==> (c.total_export_count >= c.export_count && c.total_entry_count >= c.entries@.len()
                && c.total_leak_count >= c.leak_count && c.total_public_signature_edge_count
                >= c.public_signature_edge_count),
        decreases c.entries@.len() - i,
    {
        if c.entries[i].total_referenced_type_count < c.entries[i].referenced_type_count {
            ok = false;
        }
        i = i + 1;
    }
    if ok {
        Ok(())
    } else {
        Err(TypeAwareError(copy_str("type-aware API surface totals are smaller than their returned arrays")))
    }
}

/// A private type that a public signature exposes, as the companion reports
/// it.
#[derive(Debug)]
pub struct ApiLeakData {
    pub exposed_symbol: SemanticSymbol,
    pub private_declaration: SemanticSymbol,
    pub relation: String,
    pub evidence: EvidenceLocation,
}

/// The semantic evidence attached to a private-type-leak finding.
#[derive(Debug)]
pub struct SemanticPrivateTypeLeak {
    pub exposed: SemanticSymbol,
    pub private_declaration: SemanticSymbol,
    pub relation: String,
    pub diagnostic_code: Option<String>,
}

/// A private-type-leak finding.
#[derive(Debug)]
pub struct PrivateTypeLeak {
    pub path: String,
    pub export_name: String,
    pub private_type: String,
    pub line: u32,
    pub col: u32,
    pub span_start: u32,
    pub semantic: Option<SemanticPrivateTypeLeak>,
}

/// Two symbols name the same thing the same way.
pub open spec fn same_symbol(a: SemanticSymbol, b: SemanticSymbol) -> bool {
    &&& a.path@ == b.path@
    &&& a.namespace == b.namespace
    &&& a.declaration_kind@ == b.declaration_kind@
    &&& a.exported_name@ == b.exported_name@
    &&& a.local_name@ == b.local_name@
    &&& match (a.owner, b.owner) {
        (Some(x), Some(y)) => x@ == y@,
        (None, None) => true,
        _ => false,
    }
    &&& a.line == b.line
    &&& a.col == b.col
}

/// `s` is the semantic evidence of `wire`.
pub open spec fn semantic_of(s: SemanticPrivateTypeLeak, wire: ApiLeakData) -> bool {
    &&& same_symbol(s.exposed, wire.exposed_symbol)
    &&& same_symbol(s.private_declaration, wire.private_declaration)
    &&& s.relation@ == wire.relation@
    &&& s.diagnostic_code is None
}

/// A finding is the one `wire` describes: the same file (as `Path`s), export
/// and private type.
pub open spec fn leak_describes(f: PrivateTypeLeak, root: Seq<char>, wire: ApiLeakData) -> bool {
    &&& path_eq(f.path@, path_joined(root, wire.evidence.path@))
    &&& f.export_name@ == wire.exposed_symbol.exported_name@
    &&& f.private_type@ == wire.private_declaration.local_name@
}

/// `n` is `o` with its semantic evidence replaced by `wire`'s.
pub open spec fn enriched(n: PrivateTypeLeak, o: PrivateTypeLeak, wire: ApiLeakData) -> bool {
    &&& n.path@ == o.path@
    &&& n.export_name@ == o.export_name@
    &&& n.private_type@ == o.private_type@
    &&& n.line == o.line
    &&& n.col == o.col
    &&& n.span_start == o.span_start
    &&& n.semantic matches Some(s) && semantic_of(s, wire)
}

/// `n` is the new finding for `wire`: in the evidence file under `root`, at
/// the evidence position.
pub open spec fn new_leak(n: PrivateTypeLeak, root: Seq<char>, wire: ApiLeakData) -> bool {
    &&& n.path@ == path_joined(root, wire.evidence.path@)
    &&& n.export_name@ == wire.exposed_symbol.exported_name@
    &&& n.private_type@ == wire.private_declaration.local_name@
    &&& n.line == wire.evidence.line
    &&& n.col == wire.evidence.col
    &&& n.span_start == 0
    &&& n.semantic matches Some(s) && semantic_of(s, wire)
}

pub(crate) fn copy_symbol(s: &SemanticSymbol) -> (r: SemanticSymbol)
    ensures
        same_symbol(r, *s),
{
    SemanticSymbol {
        path: copy_str(s.path.as_str()),
        namespace: s.namespace,
        declaration_kind: copy_str(s.declaration_kind.as_str()),
        exported_name: copy_str(s.exported_name.as_str()),
        local_name: copy_str(s.local_name.as_str()),
        owner: match &s.owner {
            Some(o) => Some(copy_str(o.as_str())),
            None => None,
        },
        line: s.line,
        col: s.col,
    }
}

fn semantic_leak(wire: &ApiLeakData) -> (r: SemanticPrivateTypeLeak)
    ensures
        semantic_of(r, *wire),
{
    SemanticPrivateTypeLeak {
        exposed: copy_symbol(&wire.exposed_symbol),
        private_declaration: copy_symbol(&wire.private_declaration),
        relation: copy_str(wire.relation.as_str()),
        diagnostic_code: None,
    }
}

/// `after` is `before` with the companion's evidence for `wire` attached to
/// the first finding it describes (the rest unchanged), or, when none does,
/// with a finding for it added at the end.
pub open spec fn leak_step(before: Seq<PrivateTypeLeak>, after: Seq<PrivateTypeLeak>, root: Seq<char>, wire: ApiLeakData) -> bool {
    &&& (exists|k: int| 0 <= k < before.len() && leak_describes(#[trigger] before[k], root, wire))
        ==> (exists|k: int|
        0 <= k < before.len() && leak_describes(before[k], root, wire) && (forall|j: int|
            0 <= j < k ==> !leak_describes(#[trigger] before[j], root, wire)) && after.len() == before.len()
            && enriched(#[trigger] after[k], before[k], wire) && forall|j: int|
            0 <= j < before.len() && j != k ==> #[trigger] after[j] == before[j])
    &&& !(exists|k: int| 0 <= k < before.len() && leak_describes(#[trigger] before[k], root, wire))
        ==> (after.len() == before.len() + 1 && new_leak(after[before.len() as int], root, wire) && forall|j: int|
        0 <= j < before.len() ==> #[trigger] after[j] == before[j])
}

/// Attach the companion's evidence for `wire` to the first finding it
/// describes, or add a finding for it when none does.
pub fn attach_or_add_private_type_leak(root: &str, findings: &mut Vec<PrivateTypeLeak>, wire: &ApiLeakData)
    ensures
        leak_step(old(findings)@, final(findings)@, root@, *wire),
{
    let evidence_path = join_path(root, wire.evidence.path.as_str());
    let mut k: usize = 0;
    while k < findings.len()
        invariant
            k <= findings@.len(),
            findings@ == old(findings)@,
            evidence_path@ == path_joined(root@, wire.evidence.path@),
            forall|j: int| 0 <= j < k ==> !leak_describes(#[trigger] findings@[j], root@, *wire),
        decreases findings@.len() - k,
    {
        let f = &findings[k];
        if same_path(f.path.as_str(), evidence_path.as_str()) && crate::text::str_eq(
            f.export_name.as_str(),
            wire.exposed_symbol.exported_name.as_str(),
        ) && crate::text::str_eq(f.private_type.as_str(), wire.private_declaration.local_name.as_str()) {
            let updated = PrivateTypeLeak {
                path: copy_str(f.path.as_str()),
                export_name: copy_str(f.export_name.as_str()),
                private_type: copy_str(f.private_type.as_str()),
                line: f.line,
                col: f.col,
                span_start: f.span_start,
                semantic: Some(semantic_leak(wire)),
            };
            let ghost old_k = findings@[k as int];
            findings.set(k, updated);
            assert(enriched(findings@[k as int], old_k, *wire));
            return;
        }
        k = k + 1;
    }
    let leak = PrivateTypeLeak {
        path: evidence_path,
        export_name: copy_str(wire.exposed_symbol.exported_name.as_str()),
        private_type: copy_str(wire.private_declaration.local_name.as_str()),
        line: wire.evidence.line,
        col: wire.evidence.col,
        span_start: 0,
        semantic: Some(semantic_leak(wire)),
    };
    findings.push(leak);
}

/// The three queries of a semantic inspect, numbered 0 to 2: the symbol's
/// trace, the API surface from the entry points (without cycles), and the
/// symbol's impact; or the refusal of the first entry point outside the
/// project.
pub fn inspect_queries(root: &str, symbol: &SemanticSymbol, entry_points: &Vec<String>) -> (r: Result<
    Vec<SemanticQuery>,
    TypeAwareError,
>)
    ensures
        r is Ok <==> all_project_relative(root@, string_views_of(entry_points@)),
        r matches Err(e) ==> first_refusal(root@, string_views_of(entry_points@), e.0@),
        r matches Ok(qs) ==> {
            &&& qs@.len() == 3
            &&& qs@[0] matches SemanticQuery::SymbolTrace { id, symbol: s } && id == 0 && same_symbol(s, *symbol)
            &&& qs@[1] matches SemanticQuery::ApiSurface { id, entry_points: points, include_cycles } && id == 1
                && !include_cycles && string_views_of(points@) == entry_point_texts(
                root@,
                string_views_of(entry_points@),
            )
            &&& qs@[2] matches SemanticQuery::SymbolImpact { id, symbol: s } && id == 2 && same_symbol(s, *symbol)
        },
{
    let points = match protocol_entry_points(root, entry_points) {
        Ok(p) => p,
        Err(e) => return Err(e),
    };
    let mut qs: Vec<SemanticQuery> = Vec::new();
    qs.push(SemanticQuery::SymbolTrace { id: 0, symbol: copy_symbol(symbol) });
    qs.push(SemanticQuery::ApiSurface { id: 1, entry_points: points, include_cycles: false });
    qs.push(SemanticQuery::SymbolImpact { id: 2, symbol: copy_symbol(symbol) });
    Ok(qs)
}

/// The position of the first result answering query `id`, or the refusal
/// naming the section (`what`) the inspect would be missing.
pub fn inspect_result_index(results: &Vec<QueryResultFacts>, id: usize, what: &str) -> (r: Result<
    usize,
    TypeAwareError,
>)
    ensures
        r matches Ok(k) ==> k < results@.len() && results@[k as int].query_id == id && forall|j: int|
            0 <= j < k ==> #[trigger] results@[j].query_id != id,
        r matches Err(e) ==> e.0@ == "semantic inspect omitted "@ + what@ && forall|j: int|
            0 <= j < results@.len() ==> #[trigger] results@[j].query_id != id,
        r is Ok <==> exists|j: int| 0 <= j < results@.len() && #[trigger] results@[j].query_id == id,
{
    let mut k: usize = 0;
    while k < results.len()
        invariant
            k <= results@.len(),
            forall|j: int| 0 <= j < k ==> #[trigger] results@[j].query_id != id,
        decreases results@.len() - k,
    {
        if results[k].query_id == id {
            return Ok(k);
        }
        k = k + 1;
    }
    let mut m = String::new();
    push_str(&mut m, "semantic inspect omitted ");
    push_str(&mut m, what);
    Err(TypeAwareError(m))
}

} // verus!
