use fallow_cli::dead_code_queries::{
    build_dead_code_queries, MemberKind, UnusedExportFinding, UnusedMemberFinding,
};
use fallow_cli::dead_code_queries::{SemanticNamespace, SemanticSymbol};
use fallow_cli::dead_code_refine::{
    apply_dead_code_response, ApiSurfaceAnswer, ProjectReport, ResponseSummary,
};
use fallow_cli::meta::{SemanticCompleteness, TypeAwarePhaseTimings};
use fallow_cli::semantic_decode::{
    ApiLeakData, ApiSurfaceCounts, CouplingAnswer, EvidenceLocation, PrivateTypeLeak, TypeCouplingData,
};
use fallow_cli::semantic_queries::{QueryResultFacts, QueryTarget, SemanticCapability, SemanticOperation};

fn member(name: &str) -> UnusedMemberFinding {
    UnusedMemberFinding {
        path: "src/job.ts".to_string(),
        kind: MemberKind::ClassProperty,
        member_name: name.to_string(),
        parent_name: "Job".to_string(),
        line: 1,
        col: 1,
    }
}

fn export(name: &str) -> UnusedExportFinding {
    UnusedExportFinding { path: "src/a.ts".to_string(), export_name: name.to_string(), line: 1, col: 1 }
}

fn answer(id: usize, assertion: &str, status: SemanticCompleteness) -> QueryResultFacts {
    QueryResultFacts {
        query_id: id,
        operation: SemanticOperation::SymbolUse,
        assertion: assertion.to_string(),
        status,
        reason_code: None,
        action_count: 0,
        omission_count: 0,
        evidence_count: 0,
        total_evidence_count: 0,
    }
}

#[test]
fn confirmed_findings_leave_and_the_rest_keep_their_order() {
    let mut members = vec![member("a"), member("b")];
    let mut exports = vec![export("x"), export("y"), export("z")];
    let (queries, targets) = build_dead_code_queries(
        "/repo",
        &members,
        &exports,
        &Vec::new(),
        &Vec::new(),
        false,
        false,
    )
    .unwrap();
    let results = vec![
        answer(1, "confirmed-used", SemanticCompleteness::Complete),
        answer(3, "confirmed-used", SemanticCompleteness::Complete),
        answer(4, "no-use-found", SemanticCompleteness::Partial),
        answer(42, "confirmed-used", SemanticCompleteness::Complete),
    ];
    let refined = apply_dead_code_response(
        "/repo",
        &mut members,
        &mut exports,
        &mut Vec::new(),
        &mut Vec::new(),
        &queries,
        &targets,
        &results,
        &vec![SemanticCapability::TypeCoupling, SemanticCapability::SymbolUse, SemanticCapability::SymbolUse],
        None,
        None,
        response(),
    )
    .expect("no whole-project answer failed");
    assert_eq!(
        members.iter().map(|m| m.member_name.as_str()).collect::<Vec<_>>(),
        vec!["a"]
    );
    assert_eq!(
        exports.iter().map(|e| e.export_name.as_str()).collect::<Vec<_>>(),
        vec!["x", "z"]
    );
    assert_eq!(refined.tally.confirmed_used_count, 2);
    assert_eq!(refined.tally.abstained_count, 1);
    assert_eq!(refined.meta.queries.iter().map(|q| q.query_id).collect::<Vec<_>>(), vec![1, 3, 4]);
    let identity = refined.meta.identity.as_ref().expect("the batch ran");
    assert_eq!(identity.completeness, SemanticCompleteness::Partial);
    assert_eq!(
        identity.capabilities,
        vec![SemanticCapability::SymbolUse, SemanticCapability::TypeCoupling]
    );
    assert_eq!(refined.meta.candidate_count, 5);
    assert_eq!(refined.meta.confirmed_used_count, 2);
    assert_eq!(refined.meta.abstained_count, 1);
    assert_eq!(refined.meta.abstention_reasons.ambiguous_project, 1);
    assert_eq!(refined.meta.backend, "typescript-go");
    assert_eq!(refined.meta.backend_version.as_deref(), Some("7.0.0"));
    assert_eq!(refined.meta.protocol_version, 2);
    assert_eq!(refined.meta.warning_count, 1);
    assert_eq!(refined.meta.projects.len(), 1);
    assert_eq!(refined.meta.projects[0].program_reused, Some(true));
    assert_eq!(refined.meta.projects[0].abstained_count, 0);
    assert!(refined.meta.executed);
    assert!(refined.meta.api_surface.is_none());
    assert!(refined.meta.type_coupling.is_none());
}

fn response() -> ResponseSummary {
    ResponseSummary {
        protocol_version: 2,
        sidecar_version: "1.0.0".to_string(),
        backend: "typescript-go".to_string(),
        backend_version: "7.0.0".to_string(),
        selected_tsconfigs: vec!["tsconfig.json".to_string()],
        warnings: vec!["slow project".to_string()],
        elapsed_ms: 12,
        phase_timings_ms: TypeAwarePhaseTimings { project_setup: 1, diagnostics: 2, symbol_scan: 3 },
        projects: vec![ProjectReport {
            config: "tsconfig.json".to_string(),
            status: SemanticCompleteness::Complete,
            blocking_diagnostic_count: 0,
            source_file_count: 40,
            program_reused: true,
            reason_code: None,
        }],
    }
}

fn whole(id: usize, operation: SemanticOperation) -> QueryResultFacts {
    let mut r = answer(id, "evidence-returned", SemanticCompleteness::Complete);
    r.operation = operation;
    r
}

fn symbol(name: &str) -> SemanticSymbol {
    SemanticSymbol {
        path: "src/api.ts".to_string(),
        namespace: SemanticNamespace::Type,
        declaration_kind: "interface".to_string(),
        exported_name: name.to_string(),
        local_name: name.to_string(),
        owner: None,
        line: 3,
        col: 0,
    }
}

fn counts(exports: usize, total: usize) -> ApiSurfaceCounts {
    ApiSurfaceCounts {
        total_export_count: total,
        export_count: exports,
        total_entry_count: 0,
        entries: Vec::new(),
        total_leak_count: 1,
        leak_count: 1,
        total_public_signature_edge_count: 0,
        public_signature_edge_count: 0,
    }
}

fn leak_wire() -> ApiLeakData {
    ApiLeakData {
        exposed_symbol: symbol("Options"),
        private_declaration: symbol("Internal"),
        relation: "parameter".to_string(),
        evidence: EvidenceLocation { path: "src/api.ts".to_string(), line: 9, col: 4 },
    }
}

fn coupling_answer(status: SemanticCompleteness, data: Result<TypeCouplingData, String>) -> CouplingAnswer {
    CouplingAnswer { status, assertion: "coupling".to_string(), omissions: Vec::new(), actions: Vec::new(), data }
}

fn refine(
    results: &Vec<QueryResultFacts>,
    leaks: &mut Vec<PrivateTypeLeak>,
    exports: &mut Vec<UnusedExportFinding>,
    api: Option<Result<ApiSurfaceAnswer, String>>,
    coupling: Option<CouplingAnswer>,
) -> Result<fallow_cli::dead_code_refine::DeadCodeRefinement, fallow_cli::type_aware::TypeAwareError> {
    let targets = vec![QueryTarget::ApiSurface, QueryTarget::TypeCoupling, QueryTarget::UnusedExport(0)];
    apply_dead_code_response(
        "/repo",
        &mut Vec::new(),
        exports,
        &mut Vec::new(),
        leaks,
        &Vec::new(),
        &targets,
        results,
        &vec![SemanticCapability::ApiSurface],
        api,
        coupling,
        response(),
    )
}

fn existing_leak() -> PrivateTypeLeak {
    PrivateTypeLeak {
        path: "/repo/src/api.ts".to_string(),
        export_name: "Options".to_string(),
        private_type: "Internal".to_string(),
        line: 9,
        col: 4,
        span_start: 120,
        semantic: None,
    }
}

#[test]
fn an_api_surface_that_does_not_decode_fails_the_batch() {
    let results = vec![whole(0, SemanticOperation::ApiSurface)];
    let error = refine(&results, &mut Vec::new(), &mut Vec::new(), Some(Err("missing field `entries`".to_string())), None)
        .err()
        .expect("the API surface did not decode");
    assert_eq!(error.0, "failed to decode type-aware API surface: missing field `entries`");
    let mut leaks = vec![existing_leak()];
    let error = refine(
        &results,
        &mut leaks,
        &mut Vec::new(),
        Some(Ok(ApiSurfaceAnswer { counts: counts(3, 2), leaks: vec![leak_wire()] })),
        None,
    )
    .err()
    .expect("the totals undercount the exports");
    assert_eq!(error.0, "type-aware API surface totals are smaller than their returned arrays");
    assert!(leaks[0].semantic.is_none(), "a refused API surface attaches nothing");
}

#[test]
fn the_first_failing_whole_project_answer_in_result_order_decides() {
    let bad_api = || Some(Err::<ApiSurfaceAnswer, String>("api".to_string()));
    let bad_coupling = || Some(coupling_answer(SemanticCompleteness::Complete, Err("coupling".to_string())));
    let coupling_first = vec![whole(1, SemanticOperation::TypeCoupling), whole(0, SemanticOperation::ApiSurface)];
    let error = refine(&coupling_first, &mut Vec::new(), &mut Vec::new(), bad_api(), bad_coupling()).err().unwrap();
    assert_eq!(error.0, "failed to decode type-aware coupling: coupling");
    let api_first = vec![whole(0, SemanticOperation::ApiSurface), whole(1, SemanticOperation::TypeCoupling)];
    let error = refine(&api_first, &mut Vec::new(), &mut Vec::new(), bad_api(), bad_coupling()).err().unwrap();
    assert_eq!(error.0, "failed to decode type-aware API surface: api");
}

#[test]
fn a_failing_batch_keeps_its_findings_and_the_leaks_attached_before_the_failure() {
    let good_api = || Some(Ok(ApiSurfaceAnswer { counts: counts(2, 2), leaks: vec![leak_wire()] }));
    let bad_coupling = || Some(coupling_answer(SemanticCompleteness::Complete, Err("coupling".to_string())));
    let confirmed = || answer(2, "confirmed-used", SemanticCompleteness::Complete);

    let api_first = vec![confirmed(), whole(0, SemanticOperation::ApiSurface), whole(1, SemanticOperation::TypeCoupling)];
    let mut leaks = vec![existing_leak()];
    let mut exports = vec![export("x")];
    let error = refine(&api_first, &mut leaks, &mut exports, good_api(), bad_coupling()).err().unwrap();
    assert_eq!(error.0, "failed to decode type-aware coupling: coupling");
    assert!(leaks[0].semantic.is_some(), "the API surface came first, so its leaks stay attached");
    assert_eq!(exports.len(), 1, "no finding leaves its list on a failing batch");

    let coupling_first = vec![confirmed(), whole(1, SemanticOperation::TypeCoupling), whole(0, SemanticOperation::ApiSurface)];
    let mut leaks = vec![existing_leak()];
    let mut exports = vec![export("x")];
    refine(&coupling_first, &mut leaks, &mut exports, good_api(), bad_coupling()).err().unwrap();
    assert!(leaks[0].semantic.is_none(), "the failure came first, so nothing was attached");
    assert_eq!(exports.len(), 1);
}

#[test]
fn the_api_surface_leaks_are_attached_and_its_counts_recorded() {
    let results = vec![whole(0, SemanticOperation::ApiSurface), whole(1, SemanticOperation::TypeCoupling)];
    let mut leaks = vec![existing_leak()];
    let refined = refine(
        &results,
        &mut leaks,
        &mut Vec::new(),
        Some(Ok(ApiSurfaceAnswer { counts: counts(2, 2), leaks: vec![leak_wire(), leak_wire()] })),
        Some(coupling_answer(SemanticCompleteness::Unavailable, Err("not read".to_string()))),
    )
    .expect("every whole-project answer is sound");
    assert_eq!(leaks.len(), 1);
    assert_eq!(leaks[0].span_start, 120);
    let semantic = leaks[0].semantic.as_ref().expect("enriched");
    assert_eq!(semantic.relation, "parameter");
    assert_eq!(refined.meta.api_surface.as_ref().map(|c| c.export_count), Some(2));
    let coupling = refined.meta.type_coupling.as_ref().expect("the coupling query was answered");
    assert_eq!(coupling.status, SemanticCompleteness::Unavailable);
    assert!(coupling.summary.is_none());

    let mut leaks = Vec::new();
    let refined = refine(
        &Vec::new(),
        &mut leaks,
        &mut Vec::new(),
        Some(Ok(ApiSurfaceAnswer { counts: counts(2, 2), leaks: vec![leak_wire()] })),
        None,
    )
    .expect("nothing failed");
    assert!(leaks.is_empty());
    assert!(refined.meta.api_surface.is_none());
}
