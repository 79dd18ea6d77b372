use fallow_cli::dead_code_queries::{SemanticNamespace, SemanticSymbol};
use fallow_cli::meta::SemanticCompleteness;
use fallow_cli::symbol_trace::{
    decode_symbol_trace, trace_references, SemanticReferenceData, SymbolTraceData,
};

fn symbol() -> SemanticSymbol {
    SemanticSymbol {
        path: "src/config.ts".to_string(),
        namespace: SemanticNamespace::Value,
        declaration_kind: "function".to_string(),
        exported_name: "defineConfig".to_string(),
        local_name: "defineConfig".to_string(),
        owner: None,
        line: 4,
        col: 0,
    }
}

fn reference(path: &str, namespace: Option<SemanticNamespace>, via: Vec<u8>) -> Option<SemanticReferenceData<u8>> {
    Some(SemanticReferenceData {
        path: path.to_string(),
        line: 7,
        col: 2,
        role: "call".to_string(),
        namespace,
        via,
    })
}

fn trace_data(hops: usize, total_hops: usize, checker: usize, graph: usize) -> SymbolTraceData<u8> {
    SymbolTraceData {
        symbol: symbol(),
        selected_project: "tsconfig.app.json".to_string(),
        alias_hops: vec![0; hops],
        total_alias_hop_count: total_hops,
        checker_evidence_count: checker,
        graph_evidence_count: graph,
    }
}

#[test]
fn references_keep_decoded_evidence_that_names_a_namespace_in_order() {
    let refs = trace_references(vec![
        reference("src/a.ts", Some(SemanticNamespace::Value), vec![1, 2]),
        None,
        reference("src/b.ts", None, vec![]),
        reference("src/c.ts", Some(SemanticNamespace::Type), vec![]),
    ]);
    assert_eq!(refs.len(), 2);
    assert_eq!(refs[0].path, "src/a.ts");
    assert_eq!(refs[0].namespace, SemanticNamespace::Value);
    assert_eq!(refs[0].via, vec![1, 2]);
    assert_eq!((refs[0].line, refs[0].col, refs[0].role.as_str()), (7, 2, "call"));
    assert_eq!(refs[1].path, "src/c.ts");
    assert_eq!(refs[1].namespace, SemanticNamespace::Type);
}

#[test]
fn an_unavailable_trace_reports_nothing_found_in_the_first_selected_project() {
    let trace = decode_symbol_trace::<u8>(
        SemanticCompleteness::Unavailable,
        &vec!["tsconfig.json".to_string(), "tsconfig.test.json".to_string()],
        symbol(),
        9,
        Err("not read".to_string()),
        vec![reference("src/a.ts", Some(SemanticNamespace::Value), vec![])],
    )
    .expect("an unavailable answer is not an error");
    assert_eq!(trace.selected_project, "tsconfig.json");
    assert_eq!(trace.target.exported_name, "defineConfig");
    assert_eq!(trace.status, SemanticCompleteness::Unavailable);
    assert!(trace.references.is_empty());
    assert_eq!(
        (trace.total_reference_count, trace.checker_evidence_count, trace.graph_evidence_count),
        (0, 0, 0)
    );
    let trace = decode_symbol_trace::<u8>(
        SemanticCompleteness::Unavailable,
        &vec![],
        symbol(),
        0,
        Err("not read".to_string()),
        vec![],
    )
    .expect("an unavailable answer is not an error");
    assert_eq!(trace.selected_project, "<unavailable>");
}

#[test]
fn a_complete_trace_carries_its_counts_and_references() {
    let trace = decode_symbol_trace(
        SemanticCompleteness::Complete,
        &vec!["tsconfig.json".to_string()],
        symbol(),
        3,
        Ok(trace_data(1, 2, 3, 4)),
        vec![reference("src/a.ts", Some(SemanticNamespace::Value), vec![5]), None],
    )
    .expect("valid trace");
    assert_eq!(trace.selected_project, "tsconfig.app.json");
    assert_eq!(trace.status, SemanticCompleteness::Complete);
    assert_eq!(trace.references.len(), 1);
    assert_eq!(trace.references[0].via, vec![5]);
    assert_eq!(trace.total_reference_count, 3);
    assert_eq!(trace.checker_evidence_count, 3);
    assert_eq!(trace.graph_evidence_count, 4);
}

#[test]
fn a_trace_whose_totals_undercount_its_evidence_is_refused() {
    let refused = "type-aware symbol trace totals are smaller than returned evidence";
    for (data, total) in [
        (trace_data(2, 1, 0, 5), 0),
        (trace_data(0, 0, 4, 0), 3),
        (trace_data(2, 2, 0, 1), 0),
    ] {
        let error = decode_symbol_trace(
            SemanticCompleteness::Partial,
            &vec![],
            symbol(),
            total,
            Ok(data),
            vec![],
        )
        .expect_err("totals undercount the evidence");
        assert_eq!(error.0, refused);
    }
}

#[test]
fn an_undecodable_trace_names_the_decoder_error() {
    let error = decode_symbol_trace::<u8>(
        SemanticCompleteness::Complete,
        &vec![],
        symbol(),
        0,
        Err("missing field `symbol`".to_string()),
        vec![],
    )
    .expect_err("data did not decode");
    assert_eq!(error.0, "failed to decode type-aware symbol trace: missing field `symbol`");
}
