use fallow_cli::semantic_queries::config_read_path;
use fallow_cli::meta::{SemanticCompleteness, TypeAwareRequire};
use fallow_cli::semantic_queries::{
    aggregate_completeness, digest_hex, enforce_requirement, identity_project_config_strings,
    merge_completeness, project_config_hash, retain_unconfirmed, tally_dead_code_results,
    validate_response, QueryResultFacts, QueryTarget, ResponseHeader, SemanticGapReason,
    SemanticOperation,
};

fn header() -> ResponseHeader {
    ResponseHeader {
        protocol_version: 3,
        operation: "semantic-queries".to_string(),
        sidecar_version: "2.0.0".to_string(),
        backend: "typescript-go".to_string(),
        backend_version: "7.0.2".to_string(),
    }
}

fn result(id: usize, op: SemanticOperation, assertion: &str, status: SemanticCompleteness) -> QueryResultFacts {
    QueryResultFacts {
        query_id: id,
        operation: op,
        assertion: assertion.to_string(),
        status,
        reason_code: None,
        action_count: 0,
        omission_count: 0,
        evidence_count: 0,
        total_evidence_count: 0,
    }
}

fn message(r: Result<(), fallow_cli::type_aware::TypeAwareError>) -> String {
    r.err().map(|e| e.0).unwrap_or_default()
}

#[test]
fn a_matching_response_is_accepted() {
    let expected = vec![SemanticOperation::SymbolUse, SemanticOperation::ApiSurface];
    let results = vec![
        result(1, SemanticOperation::ApiSurface, "x", SemanticCompleteness::Complete),
        result(0, SemanticOperation::SymbolUse, "confirmed-used", SemanticCompleteness::Complete),
    ];
    assert!(validate_response(&expected, &header(), &results, "2.0.0").is_ok());
}

#[test]
fn response_identity_is_checked_first() {
    let mut h = header();
    h.protocol_version = 2;
    assert_eq!(
        message(validate_response(&vec![], &h, &vec![], "2.0.0")),
        "type-aware protocol mismatch: expected 3/semantic-queries, received 2/semantic-queries"
    );
    assert_eq!(
        message(validate_response(&vec![], &header(), &vec![], "2.1.0")),
        "type-aware companion version 2.0.0 does not match Fallow 2.1.0. Install fallow-type-aware@2.1.0"
    );
    let mut h = header();
    h.backend_version = "7.0.1".to_string();
    assert_eq!(
        message(validate_response(&vec![], &h, &vec![], "2.0.0")),
        "unsupported type-aware backend version 7.0.1; expected 7.0.2"
    );
}

#[test]
fn unknown_duplicate_and_missing_results_are_refused() {
    let expected = vec![SemanticOperation::SymbolUse];
    let unknown = vec![result(4, SemanticOperation::SymbolUse, "x", SemanticCompleteness::Complete)];
    assert_eq!(
        message(validate_response(&expected, &header(), &unknown, "2.0.0")),
        "type-aware response returned unknown query id 4"
    );
    let twice = vec![
        result(0, SemanticOperation::SymbolUse, "x", SemanticCompleteness::Complete),
        result(0, SemanticOperation::SymbolUse, "x", SemanticCompleteness::Complete),
    ];
    assert_eq!(
        message(validate_response(&expected, &header(), &twice, "2.0.0")),
        "type-aware response returned a duplicate or mismatched query id 0"
    );
    assert_eq!(
        message(validate_response(&expected, &header(), &vec![], "2.0.0")),
        "type-aware response did not classify every query"
    );
    let mut short = result(0, SemanticOperation::SymbolUse, "x", SemanticCompleteness::Complete);
    short.evidence_count = 2;
    short.total_evidence_count = 1;
    assert_eq!(
        message(validate_response(&expected, &header(), &vec![short], "2.0.0")),
        "type-aware query 0 reported fewer total evidence items than it returned"
    );
    let partial = result(0, SemanticOperation::SymbolUse, "x", SemanticCompleteness::Partial);
    assert_eq!(
        message(validate_response(&expected, &header(), &vec![partial], "2.0.0")),
        "type-aware query 0 omitted the reason, action, or omission required for an incomplete result"
    );
}

#[test]
fn tally_counts_confirmed_unresolved_and_abstained_symbol_uses() {
    let targets = vec![
        QueryTarget::ClassMember(0),
        QueryTarget::UnusedExport(3),
        QueryTarget::UnusedType(1),
        QueryTarget::ApiSurface,
    ];
    let mut abstained = result(2, SemanticOperation::SymbolUse, "unknown", SemanticCompleteness::Partial);
    abstained.reason_code = Some(SemanticGapReason::NoProject);
    let results = vec![
        result(0, SemanticOperation::SymbolUse, "confirmed-used", SemanticCompleteness::Complete),
        result(1, SemanticOperation::SymbolUse, "no-use-found", SemanticCompleteness::Complete),
        abstained,
        result(3, SemanticOperation::ApiSurface, "confirmed-used", SemanticCompleteness::Complete),
    ];
    let t = tally_dead_code_results(&targets, &results);
    assert_eq!(t.confirmed_class_members, vec![0]);
    assert!(t.confirmed_exports.is_empty());
    assert!(t.confirmed_types.is_empty());
    assert_eq!(t.confirmed_used_count, 1);
    assert_eq!(t.unresolved_count, 1);
    assert_eq!(t.abstained_count, 1);
    assert_eq!(t.no_project, 1);
    assert_eq!(t.blocking_diagnostics, 0);
    assert_eq!(t.ambiguous_project, 0);
}

#[test]
fn retain_unconfirmed_keeps_order_of_the_rest() {
    assert_eq!(retain_unconfirmed(vec!["a", "b", "c", "d"], &vec![2, 0, 9]), vec!["b", "d"]);
    assert_eq!(retain_unconfirmed(Vec::<u8>::new(), &vec![0]), Vec::<u8>::new());
}

#[test]
fn completeness_aggregates_to_the_least_complete() {
    let c = |s| result(0, SemanticOperation::SymbolUse, "x", s);
    assert_eq!(aggregate_completeness(&vec![]), SemanticCompleteness::Complete);
    assert_eq!(
        aggregate_completeness(&vec![c(SemanticCompleteness::Partial), c(SemanticCompleteness::Complete)]),
        SemanticCompleteness::Partial
    );
    assert_eq!(
        aggregate_completeness(&vec![c(SemanticCompleteness::Partial), c(SemanticCompleteness::Unavailable)]),
        SemanticCompleteness::Unavailable
    );
    assert_eq!(
        merge_completeness(SemanticCompleteness::Partial, SemanticCompleteness::Complete),
        SemanticCompleteness::Partial
    );
    assert_eq!(
        merge_completeness(SemanticCompleteness::Partial, SemanticCompleteness::Unavailable),
        SemanticCompleteness::Unavailable
    );
}

#[test]
fn completeness_requirement_refuses_partial_results() {
    assert!(enforce_requirement(TypeAwareRequire::BestEffort, "consumers-found", SemanticCompleteness::Partial).is_ok());
    let err = enforce_requirement(TypeAwareRequire::Complete, "consumers-found", SemanticCompleteness::Partial)
        .unwrap_err();
    assert_eq!(err.0, "type-aware completeness is required, but consumers-found was Partial");
}

#[test]
fn digest_hex_is_two_lowercase_digits_per_byte() {
    assert_eq!(digest_hex(&[0x00, 0xab, 0x7f]), "00ab7f");
    assert_eq!(digest_hex(&[]), "");
}

#[test]
fn project_config_hash_is_sha256_over_sorted_configs_and_contents() {
    // SHA-256 of the empty message.
    assert_eq!(
        project_config_hash(&vec![], &vec![]),
        "sha256:e3b0c44298fc1c149afbf4c8996fb92427ae41e4649b934ca495991b7852b855"
    );
    // SHA-256 of "abc", split over a config name and its contents.
    assert_eq!(
        project_config_hash(&vec!["a".to_string()], &vec![Some(b"bc".to_vec())]),
        "sha256:ba7816bf8f01cfea414140de5dae2223b00361a396177a9cb410ff61f20015ad"
    );
    let ab = project_config_hash(
        &vec!["b".to_string(), "<auto>".to_string()],
        &vec![None, Some(b"ignored".to_vec())],
    );
    let ba = project_config_hash(&vec!["<auto>".to_string(), "b".to_string()], &vec![None, None]);
    assert_eq!(ab, ba);
}

#[test]
fn identity_configs_default_and_normalize() {
    assert_eq!(identity_project_config_strings("/repo", &vec![], true), vec!["tsconfig.json".to_string()]);
    assert_eq!(identity_project_config_strings("/repo", &vec![], false), vec!["<auto>".to_string()]);
    assert_eq!(
        identity_project_config_strings(
            "/repo",
            &vec![
                "b/tsconfig.json".to_string(),
                "/repo/a/tsconfig.json".to_string(),
                "a\\tsconfig.json".to_string(),
            ],
            false,
        ),
        vec!["a/tsconfig.json".to_string(), "b/tsconfig.json".to_string()]
    );
}

#[test]
fn a_placeholder_config_names_no_file_to_read() {
    assert_eq!(config_read_path("/repo", "<auto>"), None);
    assert_eq!(config_read_path("/repo", "tsconfig.json"), Some("/repo/tsconfig.json".to_string()));
    assert_eq!(config_read_path("/repo", "/abs/tsconfig.json"), Some("/abs/tsconfig.json".to_string()));
}
