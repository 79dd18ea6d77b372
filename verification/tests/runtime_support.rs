use fallow_cli::meta::OutputFormat;
use fallow_cli::runtime_support::{config_errors_message, config_loaded_visible, ownership_decision, GroupBy, OwnershipKind};

#[test]
fn group_by_owner_needs_a_codeowners_file() {
    assert!(GroupBy::Owner.needs_codeowners());
    assert!(!GroupBy::Directory.needs_codeowners());
    assert_eq!(ownership_decision(GroupBy::Owner, Some(Ok(false)), 0), Ok(OwnershipKind::Owner));
    assert_eq!(
        ownership_decision(GroupBy::Owner, Some(Err("no CODEOWNERS file found".to_string())), 0),
        Err("no CODEOWNERS file found".to_string())
    );
    assert_eq!(ownership_decision(GroupBy::Directory, None, 0), Ok(OwnershipKind::Directory));
}

#[test]
fn group_by_section_and_package_explain_their_refusals() {
    let section = ownership_decision(GroupBy::Section, Some(Ok(false)), 0).unwrap_err();
    assert!(section.contains("use --group-by owner instead"));
    assert_eq!(ownership_decision(GroupBy::Section, Some(Ok(true)), 0), Ok(OwnershipKind::Section));
    let package = ownership_decision(GroupBy::Package, None, 0).unwrap_err();
    assert!(package.contains("try --group-by directory instead"));
    assert_eq!(ownership_decision(GroupBy::Package, None, 2), Ok(OwnershipKind::Package));
}

#[test]
fn config_messages() {
    assert!(config_loaded_visible(OutputFormat::Human, false));
    assert!(!config_loaded_visible(OutputFormat::Json, false));
    assert!(!config_loaded_visible(OutputFormat::Human, true));
    assert_eq!(
        config_errors_message("invalid boundary configuration", &vec!["a".to_string(), "b".to_string()]),
        "invalid boundary configuration:\n  - a\n  - b"
    );
}
