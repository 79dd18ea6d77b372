use fallow_cli::compact::format_type_aware_metadata;
use fallow_cli::meta::{SemanticCompleteness, SemanticIdentity, TypeAwareMeta};
use fallow_cli::semantic_queries::SemanticCapability;

#[test]
fn type_aware_metadata_is_diagnostic_context_not_a_compact_record() {
    let mut meta = TypeAwareMeta::empty();
    meta.executed = true;
    meta.backend = "typescript-go".to_string();
    meta.backend_version = Some("1.2.3".to_string());

    let context = format_type_aware_metadata(&meta, None);

    assert!(context.starts_with("type-aware:executed=true backend=typescript-go@1.2.3"));
}

#[test]
fn type_aware_metadata_labels_combined_scope() {
    let meta = TypeAwareMeta::empty();

    let context = format_type_aware_metadata(&meta, Some("health"));

    assert!(context.starts_with("type-aware[health]:"));
}

#[test]
fn type_aware_metadata_without_a_run_names_every_field() {
    let meta = TypeAwareMeta::empty();
    assert_eq!(
        format_type_aware_metadata(&meta, None),
        "type-aware:executed=false backend=@not-run completeness=unknown capabilities= \
         confirmed-used=0 contract-preserved=0 no-static-references=0 fix-eligible=0 \
         unresolved=0 abstained=0 warnings=0"
    );
}

#[test]
fn type_aware_metadata_lists_identity_and_counts() {
    let mut meta = TypeAwareMeta::empty();
    meta.executed = true;
    meta.backend = "typescript-go".to_string();
    meta.backend_version = Some("7.0.2".to_string());
    meta.identity = Some(SemanticIdentity {
        completeness: SemanticCompleteness::Partial,
        capabilities: vec![SemanticCapability::SymbolUse, SemanticCapability::ApiSurface],
    });
    meta.confirmed_used_count = 12;
    meta.contract_preserved_count = 3;
    meta.no_static_references_count = 4;
    meta.fix_eligible_count = 5;
    meta.unresolved_count = 6;
    meta.abstained_count = 7;
    meta.warning_count = 108;
    assert_eq!(
        format_type_aware_metadata(&meta, Some("dead-code")),
        "type-aware[dead-code]:executed=true backend=typescript-go@7.0.2 completeness=partial \
         capabilities=symbol-use,api-surface confirmed-used=12 contract-preserved=3 \
         no-static-references=4 fix-eligible=5 unresolved=6 abstained=7 warnings=108"
    );
}
