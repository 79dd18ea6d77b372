use fallow_cli::semantic_queries::SemanticCapability;
use fallow_cli::dead_code_queries::{SemanticNamespace, SemanticSymbol};
use fallow_cli::meta::{SemanticCompleteness, TypeAwareRequire};
use fallow_cli::semantic_decode::{
    decode_symbol_impact, decode_type_coupling, impact_paths, CoupledFileData,
    DirectConsumerData, EvidenceLocation, ImpactPathData, SymbolImpactData, TypeCouplingData,
    TypeCouplingEdgeData, INCOMING_LABEL, OUTGOING_LABEL,
};
use fallow_cli::semantic_queries::{enforce_requirement, QueryResultFacts, SemanticOperation};
use fallow_cli::semantic_decode::{inspect_queries, inspect_result_index};
use fallow_cli::dead_code_queries::SemanticQuery;

fn symbol_at(path: &str) -> SemanticSymbol {
    SemanticSymbol {
        path: path.to_string(),
        namespace: SemanticNamespace::Value,
        declaration_kind: "function".to_string(),
        exported_name: "defineConfig".to_string(),
        local_name: "defineConfig".to_string(),
        owner: None,
        line: 4,
        col: 0,
    }
}

fn symbol() -> SemanticSymbol {
    symbol_at("src/config.ts")
}

fn impact_data() -> SymbolImpactData {
    SymbolImpactData {
        symbol: symbol(),
        selected_project: "tsconfig.json".to_string(),
        direct_consumers: vec![DirectConsumerData {
            path: "src/consumer.ts".to_string(),
            namespace: SemanticNamespace::Value,
        }],
        total_direct_consumer_count: 1,
        transitive_affected_files: vec![ImpactPathData {
            path: "src/transitive.ts".to_string(),
            provenance: vec!["src/consumer.ts".to_string(), "src/transitive.ts".to_string()],
        }],
        total_transitive_affected_file_count: 1,
        targeted_tests: vec![ImpactPathData {
            path: "test/config.test.ts".to_string(),
            provenance: vec!["src/consumer.ts".to_string(), "test/config.test.ts".to_string()],
        }],
        total_targeted_test_count: 1,
        confidence: "bounded".to_string(),
    }
}

#[test]
fn partial_symbol_impact_preserves_valid_consumers_and_targeted_tests() {
    let impact = decode_symbol_impact(
        SemanticCompleteness::Partial,
        &vec!["tsconfig.json".to_string()],
        symbol(),
        Ok(impact_data()),
    )
    .expect("valid impact");

    assert_eq!(impact.status, SemanticCompleteness::Partial);
    assert_eq!(impact.total_direct_consumer_count, 1);
    assert_eq!(impact.direct_consumers[0].path, "src/consumer.ts");
    assert_eq!(impact.total_affected_file_count, 1);
    assert_eq!(impact.total_targeted_test_count, 1);
    assert_eq!(impact.targeted_tests[0].path, "test/config.test.ts");
    assert_eq!(impact.confidence, "bounded");
    assert!(enforce_requirement(TypeAwareRequire::BestEffort, "consumers-found", SemanticCompleteness::Partial).is_ok());
    assert!(enforce_requirement(TypeAwareRequire::Complete, "consumers-found", SemanticCompleteness::Partial).is_err());
}

#[test]
fn impact_paths_keep_provenance_and_relation() {
    let impact = decode_symbol_impact(
        SemanticCompleteness::Complete,
        &Vec::new(),
        symbol(),
        Ok(impact_data()),
    )
    .unwrap();
    assert_eq!(impact.direct_consumers[0].relation, "direct-value-consumer");
    assert_eq!(impact.direct_consumers[0].distance, 1);
    assert_eq!(impact.affected_files[0].relation, "transitive-consumer");
    assert_eq!(impact.affected_files[0].distance, 2);
    assert_eq!(impact.targeted_tests[0].via.len(), 2);
    let lone = impact_paths(
        &vec![ImpactPathData { path: "a.ts".to_string(), provenance: Vec::new() }],
        "targeted-test",
    );
    assert_eq!(lone[0].distance, 1);
}

#[test]
fn an_unavailable_impact_reports_nothing_found() {
    let impact = decode_symbol_impact(
        SemanticCompleteness::Unavailable,
        &Vec::new(),
        symbol(),
        Err("not decoded".to_string()),
    )
    .unwrap();
    assert_eq!(impact.selected_project, "<unavailable>");
    assert_eq!(impact.confidence, "unavailable");
    assert!(impact.direct_consumers.is_empty());
}

#[test]
fn impact_totals_smaller_than_paths_are_refused() {
    let mut data = impact_data();
    data.total_targeted_test_count = 0;
    let err = decode_symbol_impact(SemanticCompleteness::Complete, &Vec::new(), symbol(), Ok(data))
        .unwrap_err();
    assert_eq!(err.message(), "type-aware symbol impact totals are smaller than returned paths");
    let err = decode_symbol_impact(
        SemanticCompleteness::Complete,
        &Vec::new(),
        symbol(),
        Err("missing field".to_string()),
    )
    .unwrap_err();
    assert_eq!(err.message(), "failed to decode type-aware symbol impact: missing field");
}

fn coupled(path: &str) -> CoupledFileData {
    CoupledFileData {
        path: path.to_string(),
        outgoing_label: OUTGOING_LABEL.to_string(),
        outgoing_files: vec!["src/b.ts".to_string()],
        total_outgoing_file_count: 2,
        incoming_label: INCOMING_LABEL.to_string(),
        incoming_files: Vec::new(),
        total_incoming_file_count: 0,
    }
}

fn edge(source: &str, target: &str) -> TypeCouplingEdgeData {
    TypeCouplingEdgeData {
        source: symbol_at(source),
        target: symbol_at(target),
        relation: "parameter".to_string(),
        evidence: EvidenceLocation { path: source.to_string(), line: 1, col: 1 },
    }
}

fn coupling_data() -> TypeCouplingData {
    TypeCouplingData {
        scope: "project".to_string(),
        direction: "both".to_string(),
        project_size: 10,
        files_analyzed: 10,
        distinct_coupled_files: 3,
        edge_count: 2,
        coupled_file_percentage_present: true,
        high_coupling_percentage_present: true,
        files: vec![coupled("src/a.ts"), coupled("src/c.ts")],
        total_file_count: 2,
        top_contributors: vec![coupled("src/a.ts")],
        edges: vec![edge("src/a.ts", "src/b.ts"), edge("src/b.ts", "src/c.ts")],
        cycles: vec![vec!["src/a.ts".to_string(), "src/b.ts".to_string()]],
        total_cycle_count: 1,
    }
}

fn answer(
    status: SemanticCompleteness,
    data: Result<TypeCouplingData, String>,
) -> fallow_cli::semantic_decode::CouplingAnswer {
    fallow_cli::semantic_decode::CouplingAnswer {
        status,
        assertion: "coupling-measured".to_string(),
        omissions: vec!["{\"kind\":\"files\"}".to_string()],
        actions: Vec::new(),
        data,
    }
}

#[test]
fn the_coupling_summary_needs_both_percentages() {
    let ev = decode_type_coupling(answer(SemanticCompleteness::Complete, Ok(coupling_data())), vec![SemanticCapability::TypeCoupling]).unwrap();
    let summary = ev.summary.as_ref().expect("both percentages were present");
    assert_eq!(summary.scope, "project");
    assert_eq!(summary.direction, "both");
    assert_eq!((summary.project_size, summary.files_analyzed, summary.distinct_coupled_files), (10, 10, 3));
    assert_eq!((summary.edge_count, summary.cycle_count), (2, 1));
    assert_eq!(ev.assertion, "coupling-measured");
    assert_eq!(ev.omissions, vec!["{\"kind\":\"files\"}".to_string()]);
    assert_eq!(ev.identity.completeness, SemanticCompleteness::Complete);
    assert_eq!(ev.identity.capabilities, vec![SemanticCapability::TypeCoupling]);
    for (coupled, high) in [(true, false), (false, true), (false, false)] {
        let mut data = coupling_data();
        data.coupled_file_percentage_present = coupled;
        data.high_coupling_percentage_present = high;
        let ev = decode_type_coupling(answer(SemanticCompleteness::Partial, Ok(data)), Vec::new()).unwrap();
        assert!(ev.summary.is_none());
        assert_eq!(ev.files.len(), 2);
    }
}

#[test]
fn each_coupled_file_keeps_the_edges_that_touch_it() {
    let ev = decode_type_coupling(answer(SemanticCompleteness::Complete, Ok(coupling_data())), vec![SemanticCapability::TypeCoupling]).unwrap();
    assert_eq!(ev.scope, "project");
    assert_eq!(ev.files.len(), 2);
    assert_eq!(ev.files[0].edges, vec![0]);
    assert_eq!(ev.files[1].edges, vec![1]);
    assert_eq!(ev.files[0].public_api_depends_on, 2);
    assert_eq!(ev.top_contributors[0].edges, vec![0]);
    assert_eq!(ev.edges.len(), 2);
    assert_eq!(ev.cycles.len(), 1);
}

#[test]
fn coupling_totals_smaller_than_evidence_are_refused() {
    let mut data = coupling_data();
    data.total_cycle_count = 0;
    let err = decode_type_coupling(answer(SemanticCompleteness::Partial, Ok(data)), vec![SemanticCapability::TypeCoupling]).unwrap_err();
    assert_eq!(err.message(), "type-aware coupling totals are smaller than returned evidence");
    let mut data = coupling_data();
    data.files[1].incoming_label = "used by".to_string();
    assert!(decode_type_coupling(answer(SemanticCompleteness::Partial, Ok(data)), vec![SemanticCapability::TypeCoupling]).is_err());
}

#[test]
fn an_unavailable_coupling_answer_has_no_evidence() {
    let ev = decode_type_coupling(answer(SemanticCompleteness::Unavailable, Err("x".to_string())), vec![SemanticCapability::TypeCoupling]).unwrap();
    assert!(ev.files.is_empty() && ev.edges.is_empty());
    let err = decode_type_coupling(answer(SemanticCompleteness::Complete, Err("bad".to_string())), vec![SemanticCapability::TypeCoupling]).unwrap_err();
    assert_eq!(err.message(), "failed to decode type-aware coupling: bad");
}

use fallow_cli::semantic_decode::{
    attach_or_add_private_type_leak, validate_api_surface_data, ApiEntryCounts, ApiLeakData,
    ApiSurfaceCounts, PrivateTypeLeak,
};

fn counts() -> ApiSurfaceCounts {
    ApiSurfaceCounts {
        total_export_count: 3,
        export_count: 3,
        total_entry_count: 2,
        entries: vec![
            ApiEntryCounts { total_referenced_type_count: 4, referenced_type_count: 2 },
            ApiEntryCounts { total_referenced_type_count: 1, referenced_type_count: 1 },
        ],
        total_leak_count: 1,
        leak_count: 0,
        total_public_signature_edge_count: 5,
        public_signature_edge_count: 5,
    }
}

#[test]
fn api_surface_totals_must_cover_returned_arrays() {
    assert!(validate_api_surface_data(&counts()).is_ok());
    let mut c = counts();
    c.entries[1].referenced_type_count = 2;
    assert_eq!(
        validate_api_surface_data(&c).unwrap_err().message(),
        "type-aware API surface totals are smaller than their returned arrays"
    );
    let mut c = counts();
    c.export_count = 4;
    assert!(validate_api_surface_data(&c).is_err());
}

fn wire() -> ApiLeakData {
    let mut private = symbol_at("src/internal.ts");
    private.local_name = "Secret".to_string();
    let mut exposed = symbol_at("src/index.ts");
    exposed.exported_name = "api".to_string();
    ApiLeakData {
        exposed_symbol: exposed,
        private_declaration: private,
        relation: "return-type".to_string(),
        evidence: EvidenceLocation { path: "src/index.ts".to_string(), line: 9, col: 3 },
    }
}

fn finding(path: &str, export: &str, private: &str) -> PrivateTypeLeak {
    PrivateTypeLeak {
        path: path.to_string(),
        export_name: export.to_string(),
        private_type: private.to_string(),
        line: 1,
        col: 1,
        span_start: 17,
        semantic: None,
    }
}

#[test]
fn a_matching_leak_finding_gains_the_semantic_evidence() {
    let mut findings = vec![
        finding("/repo/src/index.ts", "api", "Other"),
        finding("/repo/src/index.ts", "api", "Secret"),
    ];
    attach_or_add_private_type_leak("/repo", &mut findings, &wire());
    assert_eq!(findings.len(), 2);
    assert!(findings[0].semantic.is_none());
    let semantic = findings[1].semantic.as_ref().unwrap();
    assert_eq!(semantic.relation, "return-type");
    assert_eq!(semantic.private_declaration.local_name, "Secret");
    assert_eq!(findings[1].span_start, 17);
}

#[test]
fn an_unmatched_leak_becomes_a_new_finding_at_the_evidence() {
    let mut findings = vec![finding("/repo/src/other.ts", "api", "Secret")];
    attach_or_add_private_type_leak("/repo", &mut findings, &wire());
    assert_eq!(findings.len(), 2);
    let added = &findings[1];
    assert_eq!(added.path, "/repo/src/index.ts");
    assert_eq!(added.export_name, "api");
    assert_eq!(added.private_type, "Secret");
    assert_eq!((added.line, added.col, added.span_start), (9, 3, 0));
    assert!(added.semantic.is_some());
}

#[test]
fn inspect_asks_trace_surface_and_impact_in_that_order() {
    let qs = inspect_queries("/repo", &symbol(), &vec!["/repo/src/index.ts".to_string()]).unwrap();
    assert_eq!(qs.len(), 3);
    assert_eq!(qs[0].operation(), SemanticOperation::SymbolTrace);
    assert_eq!(qs[2].operation(), SemanticOperation::SymbolImpact);
    match &qs[1] {
        SemanticQuery::ApiSurface { id, entry_points, include_cycles } => {
            assert_eq!(*id, 1);
            assert_eq!(entry_points, &vec!["src/index.ts".to_string()]);
            assert!(!include_cycles);
        }
        other => panic!("unexpected {other:?}"),
    }
    assert!(inspect_queries("/repo", &symbol(), &vec!["/tmp/x.ts".to_string()]).is_err());
}

fn facts(id: usize) -> QueryResultFacts {
    QueryResultFacts {
        query_id: id,
        operation: SemanticOperation::SymbolTrace,
        assertion: "found".to_string(),
        status: SemanticCompleteness::Complete,
        reason_code: None,
        action_count: 0,
        omission_count: 0,
        evidence_count: 0,
        total_evidence_count: 0,
    }
}

#[test]
fn a_missing_inspect_section_is_named() {
    let results = vec![facts(2), facts(0), facts(2)];
    assert_eq!(inspect_result_index(&results, 2, "symbol impact").unwrap(), 0);
    assert_eq!(inspect_result_index(&results, 0, "symbol trace").unwrap(), 1);
    assert_eq!(
        inspect_result_index(&results, 1, "API surface").unwrap_err().message(),
        "semantic inspect omitted API surface"
    );
}
