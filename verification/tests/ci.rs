use fallow_cli::ci::{required_type_aware_incomplete, TYPE_AWARE_INCOMPLETE_MESSAGE};
use fallow_cli::meta::{
    SemanticCompleteness, SemanticIdentity, SemanticQuerySummary, TypeAwareMeta, TypeAwareRequire,
};

fn complete_meta() -> TypeAwareMeta {
    let mut meta = TypeAwareMeta::empty();
    meta.required_completeness = Some(TypeAwareRequire::Complete);
    meta.identity = Some(SemanticIdentity {
        completeness: SemanticCompleteness::Complete,
        capabilities: Vec::new(),
    });
    meta.queries = vec![SemanticQuerySummary { query_id: 0, status: SemanticCompleteness::Complete }];
    meta
}

#[test]
fn required_type_aware_metadata_without_identity_is_incomplete() {
    let mut meta = TypeAwareMeta::empty();
    meta.required_completeness = Some(TypeAwareRequire::Complete);
    assert!(required_type_aware_incomplete(Some(&meta)));
}

#[test]
fn no_metadata_requires_nothing() {
    assert!(!required_type_aware_incomplete(None));
}

#[test]
fn best_effort_metadata_is_never_required_incomplete() {
    let mut meta = TypeAwareMeta::empty();
    meta.required_completeness = Some(TypeAwareRequire::BestEffort);
    assert!(!required_type_aware_incomplete(Some(&meta)));
}

#[test]
fn required_complete_run_is_complete() {
    assert!(!required_type_aware_incomplete(Some(&complete_meta())));
}

#[test]
fn one_partial_query_makes_a_required_run_incomplete() {
    let mut meta = complete_meta();
    meta.queries.push(SemanticQuerySummary { query_id: 1, status: SemanticCompleteness::Partial });
    assert!(required_type_aware_incomplete(Some(&meta)));
}

#[test]
fn an_unavailable_identity_makes_a_required_run_incomplete() {
    let mut meta = complete_meta();
    meta.identity = Some(SemanticIdentity {
        completeness: SemanticCompleteness::Unavailable,
        capabilities: Vec::new(),
    });
    assert!(required_type_aware_incomplete(Some(&meta)));
}

#[test]
fn incomplete_message_says_the_report_is_not_clean() {
    assert!(TYPE_AWARE_INCOMPLETE_MESSAGE.contains("incomplete"));
}
