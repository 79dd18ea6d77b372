use fallow_cli::meta::{SemanticCompleteness, SemanticIdentity, SemanticQuerySummary, TypeAwareMeta};
use fallow_cli::meta_merge::{
    merge_capabilities, merge_configs, merge_queries, merge_semantic_identity,
    merge_type_aware_meta,
};
use fallow_cli::semantic_queries::SemanticCapability;

fn q(id: usize, status: SemanticCompleteness) -> SemanticQuerySummary {
    SemanticQuerySummary { query_id: id, status }
}

fn identity(completeness: SemanticCompleteness, capabilities: Vec<SemanticCapability>) -> SemanticIdentity {
    SemanticIdentity { completeness, capabilities }
}

fn strings(v: &[&str]) -> Vec<String> {
    v.iter().map(|s| s.to_string()).collect()
}

#[test]
fn merged_queries_are_all_kept_in_id_order() {
    let merged = merge_queries(
        &vec![q(3, SemanticCompleteness::Complete), q(0, SemanticCompleteness::Partial)],
        &vec![q(1, SemanticCompleteness::Complete), q(0, SemanticCompleteness::Unavailable)],
    );
    assert_eq!(
        merged,
        vec![
            q(0, SemanticCompleteness::Partial),
            q(0, SemanticCompleteness::Unavailable),
            q(1, SemanticCompleteness::Complete),
            q(3, SemanticCompleteness::Complete),
        ]
    );
}

#[test]
fn merged_capabilities_add_the_new_ones_once_in_order() {
    let merged = merge_capabilities(
        &vec![SemanticCapability::TypeCoupling, SemanticCapability::SymbolUse],
        &vec![
            SemanticCapability::ApiSurface,
            SemanticCapability::SymbolUse,
            SemanticCapability::ApiSurface,
        ],
    );
    assert_eq!(
        merged,
        vec![
            SemanticCapability::SymbolUse,
            SemanticCapability::ApiSurface,
            SemanticCapability::TypeCoupling,
        ]
    );
}

#[test]
fn merged_identity_keeps_the_less_complete_state() {
    let mut base = Some(identity(SemanticCompleteness::Partial, vec![SemanticCapability::SymbolUse]));
    merge_semantic_identity(
        &mut base,
        Some(identity(SemanticCompleteness::Complete, vec![SemanticCapability::SymbolImpact])),
    );
    let merged = base.unwrap();
    assert_eq!(merged.completeness, SemanticCompleteness::Partial);
    assert_eq!(
        merged.capabilities,
        vec![SemanticCapability::SymbolUse, SemanticCapability::SymbolImpact]
    );

    let mut base = Some(identity(SemanticCompleteness::Complete, Vec::new()));
    merge_semantic_identity(&mut base, Some(identity(SemanticCompleteness::Unavailable, Vec::new())));
    assert_eq!(base.unwrap().completeness, SemanticCompleteness::Unavailable);
}

#[test]
fn a_missing_identity_takes_or_keeps_the_other() {
    let mut base = None;
    merge_semantic_identity(&mut base, Some(identity(SemanticCompleteness::Partial, Vec::new())));
    assert_eq!(base.unwrap().completeness, SemanticCompleteness::Partial);
    let mut base = Some(identity(SemanticCompleteness::Complete, vec![SemanticCapability::SymbolTrace]));
    merge_semantic_identity(&mut base, None);
    assert_eq!(base.unwrap().capabilities, vec![SemanticCapability::SymbolTrace]);
}

#[test]
fn merged_configs_are_unique_and_sorted() {
    assert_eq!(
        merge_configs(&strings(&["b/tsconfig.json", "a/tsconfig.json"]), &strings(&["c.json", "a/tsconfig.json", "c.json"])),
        strings(&["a/tsconfig.json", "b/tsconfig.json", "c.json"])
    );
}

#[test]
fn merged_meta_adds_up_warnings_and_time() {
    let mut base = TypeAwareMeta::empty();
    base.executed = true;
    base.backend = "typescript-go".to_string();
    base.warning_count = 1;
    base.warnings = strings(&["first"]);
    base.elapsed_ms = 5;
    base.phase_timings_ms.diagnostics = 2;
    base.queries = vec![q(2, SemanticCompleteness::Complete)];
    base.selected_tsconfigs = strings(&["tsconfig.json"]);
    base.confirmed_used_count = 4;
    let mut overlay = TypeAwareMeta::empty();
    overlay.warning_count = 2;
    overlay.warnings = strings(&["second", "third"]);
    overlay.elapsed_ms = 7;
    overlay.phase_timings_ms.diagnostics = 3;
    overlay.queries = vec![q(1, SemanticCompleteness::Partial)];
    overlay.selected_tsconfigs = strings(&["app/tsconfig.json", "tsconfig.json"]);
    overlay.identity = Some(identity(SemanticCompleteness::Partial, vec![SemanticCapability::TypeCoupling]));
    overlay.confirmed_used_count = 9;

    merge_type_aware_meta(&mut base, overlay);

    assert_eq!(base.warning_count, 3);
    assert_eq!(base.warnings, strings(&["first", "second", "third"]));
    assert_eq!(base.elapsed_ms, 12);
    assert_eq!(base.phase_timings_ms.diagnostics, 5);
    assert_eq!(base.queries.iter().map(|q| q.query_id).collect::<Vec<_>>(), vec![1, 2]);
    assert_eq!(base.selected_tsconfigs, strings(&["app/tsconfig.json", "tsconfig.json"]));
    assert_eq!(base.identity.as_ref().unwrap().completeness, SemanticCompleteness::Partial);
    assert_eq!(base.confirmed_used_count, 4);
    assert!(base.executed);
}

fn counts(exports: usize) -> fallow_cli::semantic_decode::ApiSurfaceCounts {
    fallow_cli::semantic_decode::ApiSurfaceCounts {
        total_export_count: exports,
        export_count: exports,
        total_entry_count: 0,
        entries: Vec::new(),
        total_leak_count: 0,
        leak_count: 0,
        total_public_signature_edge_count: 0,
        public_signature_edge_count: 0,
    }
}

fn trace(project: &str) -> fallow_cli::symbol_trace::SymbolTrace<String> {
    fallow_cli::symbol_trace::SymbolTrace {
        target: fallow_cli::dead_code_queries::SemanticSymbol {
            path: "src/a.ts".to_string(),
            namespace: fallow_cli::dead_code_queries::SemanticNamespace::Value,
            declaration_kind: "function".to_string(),
            exported_name: "a".to_string(),
            local_name: "a".to_string(),
            owner: None,
            line: 1,
            col: 0,
        },
        selected_project: project.to_string(),
        status: SemanticCompleteness::Complete,
        references: Vec::new(),
        total_reference_count: 0,
        checker_evidence_count: 0,
        graph_evidence_count: 0,
    }
}

#[test]
fn merged_meta_appends_traces_and_lets_the_overlay_surface_win() {
    let mut base = TypeAwareMeta::empty();
    base.symbol_traces = vec![trace("base.json")];
    base.api_surface = Some(counts(1));
    base.protocol_version = 3;
    let mut overlay = TypeAwareMeta::empty();
    overlay.symbol_traces = vec![trace("overlay.json")];
    overlay.api_surface = Some(counts(2));
    overlay.protocol_version = 4;
    merge_type_aware_meta(&mut base, overlay);
    assert_eq!(
        base.symbol_traces.iter().map(|t| t.selected_project.as_str()).collect::<Vec<_>>(),
        vec!["base.json", "overlay.json"]
    );
    assert_eq!(base.api_surface.as_ref().map(|c| c.total_export_count), Some(2));
    assert_eq!(base.protocol_version, 3);

    let mut base = TypeAwareMeta::empty();
    base.api_surface = Some(counts(1));
    merge_type_aware_meta(&mut base, TypeAwareMeta::empty());
    assert_eq!(base.api_surface.as_ref().map(|c| c.total_export_count), Some(1));
    assert!(base.type_coupling.is_none());
}
