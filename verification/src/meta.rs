//! The parts of the type-aware run metadata that this crate reads and writes.
use vstd::prelude::*;
use crate::semantic_queries::{SemanticCapability, SemanticGapReason};
use crate::semantic_decode::{ApiSurfaceCounts, SymbolImpact, TypeCouplingEvidence};
use crate::symbol_trace::SymbolTrace;

verus! {

/// How completely a semantic query or identity was answered.
#[derive(Debug, Clone, Copy, PartialEq, Eq, Structural)]
pub enum SemanticCompleteness {
    Complete,
    Partial,
    Unavailable,
}

/// The effective `typeAware.require` policy.
#[derive(Debug, Clone, Copy, PartialEq, Eq, Structural)]
pub enum TypeAwareRequire {
    BestEffort,
    Complete,
}

/// The output format a command was asked for.
#[derive(Debug, Clone, Copy, PartialEq, Eq, Structural)]
pub enum OutputFormat {
    Human,
    Json,
    Sarif,
    Compact,
    Markdown,
    CodeClimate,
}

/// The semantic identity of a type-aware run.
#[derive(Debug)]
pub struct SemanticIdentity {
    pub completeness: SemanticCompleteness,
    /// The capabilities the run exercised, in the order recorded.
    pub capabilities: Vec<SemanticCapability>,
}

/// The summary of one semantic query.
#[derive(Debug, Clone, Copy, PartialEq, Eq, Structural)]
pub struct SemanticQuerySummary {
    pub query_id: usize,
    pub status: SemanticCompleteness,
}

/// Where a type-aware run spent its time, in milliseconds.
#[derive(Debug, Clone, Copy, PartialEq, Eq, Structural)]
pub struct TypeAwarePhaseTimings {
    pub project_setup: u64,
    pub diagnostics: u64,
    pub symbol_scan: u64,
}

/// Why the abstaining answers of a run abstained, counted by reason.
#[derive(Debug, Clone, Copy, PartialEq, Eq, Structural)]
pub struct TypeAwareAbstentionCounts {
    pub no_project: usize,
    pub blocking_diagnostics: usize,
    pub ambiguous_project: usize,
}

/// What the run recorded of one TypeScript project.
#[derive(Debug)]
pub struct TypeAwareProjectMeta {
    pub config: String,
    pub status: SemanticCompleteness,
    pub candidate_count: usize,
    pub confirmed_used_count: usize,
    pub unresolved_count: usize,
    pub abstained_count: usize,
    pub blocking_diagnostic_count: usize,
    pub source_file_count: usize,
    pub program_reused: Option<bool>,
    pub reason_code: Option<SemanticGapReason>,
}

/// Type-aware run metadata (`_meta.type_aware`). The symbol traces carry
/// their alias hops as the serialized text they arrived in; the API surface
/// is kept as the counts the library checks.
#[derive(Debug)]
pub struct TypeAwareMeta {
    pub required_completeness: Option<TypeAwareRequire>,
    pub executed: bool,
    pub backend: String,
    pub backend_version: Option<String>,
    pub selected_tsconfigs: Vec<String>,
    pub warning_count: usize,
    pub warnings: Vec<String>,
    pub identity: Option<SemanticIdentity>,
    pub queries: Vec<SemanticQuerySummary>,
    pub confirmed_used_count: usize,
    pub contract_preserved_count: usize,
    pub no_static_references_count: usize,
    pub fix_eligible_count: usize,
    pub unresolved_count: usize,
    pub abstained_count: usize,
    pub elapsed_ms: u64,
    pub phase_timings_ms: TypeAwarePhaseTimings,
    pub protocol_version: u32,
    pub sidecar_version: String,
    pub candidate_count: usize,
    pub abstention_reasons: TypeAwareAbstentionCounts,
    pub projects: Vec<TypeAwareProjectMeta>,
    pub symbol_traces: Vec<SymbolTrace<String>>,
    pub symbol_impacts: Vec<SymbolImpact>,
    pub api_surface: Option<ApiSurfaceCounts>,
    pub type_coupling: Option<TypeCouplingEvidence>,
}

impl TypeAwareMeta {
    /// Metadata of a run that did nothing and recorded nothing.
    pub fn empty() -> (m: TypeAwareMeta)
        ensures
            m.required_completeness is None,
            !m.executed,
            m.backend@.len() == 0,
            m.backend_version is None,
            m.selected_tsconfigs@.len() == 0,
            m.warning_count == 0,
            m.warnings@.len() == 0,
            m.identity is None,
            m.queries@.len() == 0,
            m.confirmed_used_count == 0,
            m.contract_preserved_count == 0,
            m.no_static_references_count == 0,
            m.fix_eligible_count == 0,
            m.unresolved_count == 0,
            m.abstained_count == 0,
            m.elapsed_ms == 0,
            m.phase_timings_ms == (TypeAwarePhaseTimings { project_setup: 0, diagnostics: 0, symbol_scan: 0 }),
            m.protocol_version == 0,
            m.sidecar_version@.len() == 0,
            m.candidate_count == 0,
            m.abstention_reasons == (TypeAwareAbstentionCounts { no_project: 0, blocking_diagnostics: 0, ambiguous_project: 0 }),
            m.projects@.len() == 0,
            m.symbol_traces@.len() == 0,
            m.symbol_impacts@.len() == 0,
            m.api_surface is None,
            m.type_coupling is None,
    {
        TypeAwareMeta {
            required_completeness: None,
            executed: false,
            backend: String::new(),
            backend_version: None,
            selected_tsconfigs: Vec::new(),
            warning_count: 0,
            warnings: Vec::new(),
            identity: None,
            queries: Vec::new(),
            confirmed_used_count: 0,
            contract_preserved_count: 0,
            no_static_references_count: 0,
            fix_eligible_count: 0,
            unresolved_count: 0,
            abstained_count: 0,
            elapsed_ms: 0,
            phase_timings_ms: TypeAwarePhaseTimings { project_setup: 0, diagnostics: 0, symbol_scan: 0 },
            protocol_version: 0,
            sidecar_version: String::new(),
            candidate_count: 0,
            abstention_reasons: TypeAwareAbstentionCounts { no_project: 0, blocking_diagnostics: 0, ambiguous_project: 0 },
            projects: Vec::new(),
            symbol_traces: Vec::new(),
            symbol_impacts: Vec::new(),
            api_surface: None,
            type_coupling: None,
        }
    }
}

/// How a completeness is written in serialized metadata.
pub open spec fn completeness_label(c: SemanticCompleteness) -> Seq<char> {
    match c {
        SemanticCompleteness::Complete => "complete"@,
        SemanticCompleteness::Partial => "partial"@,
        SemanticCompleteness::Unavailable => "unavailable"@,
    }
}

pub fn completeness_label_str(c: SemanticCompleteness) -> (r: &'static str)
    ensures
        r@ == completeness_label(c),
{
    match c {
        SemanticCompleteness::Complete => "complete",
        SemanticCompleteness::Partial => "partial",
        SemanticCompleteness::Unavailable => "unavailable",
    }
}

/// How a capability is written in serialized metadata.
pub open spec fn capability_label(c: SemanticCapability) -> Seq<char> {
    match c {
        SemanticCapability::SymbolUse => "symbol-use"@,
        SemanticCapability::SymbolTrace => "symbol-trace"@,
        SemanticCapability::ApiSurface => "api-surface"@,
        SemanticCapability::SymbolImpact => "symbol-impact"@,
        SemanticCapability::TypeCoupling => "type-coupling"@,
    }
}

pub fn capability_label_str(c: SemanticCapability) -> (r: &'static str)
    ensures
        r@ == capability_label(c),
{
    match c {
        SemanticCapability::SymbolUse => "symbol-use",
        SemanticCapability::SymbolTrace => "symbol-trace",
        SemanticCapability::ApiSurface => "api-surface",
        SemanticCapability::SymbolImpact => "symbol-impact",
        SemanticCapability::TypeCoupling => "type-coupling",
    }
}

/// The labels of `caps`, in order.
pub open spec fn capability_labels(caps: Seq<SemanticCapability>) -> Seq<Seq<char>> {
    caps.map_values(|c: SemanticCapability| capability_label(c))
}

} // verus!
