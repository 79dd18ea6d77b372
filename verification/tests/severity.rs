use fallow_cli::severity::{codeclimate_severity, github_check_conclusion, review_label, sarif_level, Severity};

#[test]
fn maps_error_across_ci_surfaces() {
    assert_eq!(sarif_level(Severity::Error), "error");
    assert_eq!(codeclimate_severity(Severity::Error), "major");
    assert_eq!(github_check_conclusion(Severity::Error), "failure");
    assert_eq!(review_label(Severity::Error), "error");
}

#[test]
fn maps_warn_across_ci_surfaces() {
    assert_eq!(sarif_level(Severity::Warn), "warning");
    assert_eq!(codeclimate_severity(Severity::Warn), "minor");
    assert_eq!(github_check_conclusion(Severity::Warn), "neutral");
    assert_eq!(review_label(Severity::Warn), "warn");
}
