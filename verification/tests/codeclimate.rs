use fallow_cli::severity::Severity;
use fallow_cli::codeclimate::{
    coverage_intelligence_check_name, coverage_intelligence_severity, health_finding_severity,
    runtime_coverage_check_name, runtime_coverage_severity, severity_to_codeclimate,
    validate_current_saved_envelope, envelope_kind_label, CoverageIntelligenceRecommendation,
    CoverageIntelligenceVerdict, FindingSeverity, RuntimeCoverageVerdict,
    envelope_fingerprint_parts, first_quoted_subject, native_category, saved_schema_is_legacy,
    sarif_level_to_codeclimate, validate_current_audit_envelope, validate_saved_schema,
    CodeClimateSeverity, EnvelopeKind, SavedEnvelope, SavedValue, check_saved_dead_code_total,
};

fn text(s: &str) -> SavedValue {
    SavedValue::Text(s.to_string())
}

fn audit_envelope() -> SavedEnvelope {
    let u = |n| SavedValue::UnsignedInteger(n);
    SavedEnvelope {
        fields: vec![
            ("schema_version".to_string(), u(2)),
            ("version".to_string(), text("2.0.0")),
            ("elapsed_ms".to_string(), u(5)),
            ("command".to_string(), text("audit")),
            ("verdict".to_string(), text("warn")),
            ("changed_files_count".to_string(), u(3)),
            ("base_ref".to_string(), text("main")),
            ("summary".to_string(), SavedValue::Object),
            ("attribution".to_string(), SavedValue::Object),
        ],
        summary: vec![
            ("dead_code_issues".to_string(), u(0)),
            ("complexity_findings".to_string(), u(1)),
            ("duplication_clone_groups".to_string(), u(0)),
            ("dead_code_has_errors".to_string(), SavedValue::Bool(false)),
        ],
        attribution: vec![
            ("gate".to_string(), text("new-only")),
            ("dead_code_introduced".to_string(), u(0)),
            ("dead_code_inherited".to_string(), u(0)),
            ("complexity_introduced".to_string(), u(0)),
            ("complexity_inherited".to_string(), u(0)),
            ("duplication_introduced".to_string(), u(0)),
            ("duplication_inherited".to_string(), u(0)),
            ("styling_introduced".to_string(), u(0)),
            ("styling_inherited".to_string(), u(0)),
            ("duplication_demoted".to_string(), u(0)),
        ],
        grouped_dead_code: false,
    }
}

#[test]
fn a_complete_audit_envelope_passes() {
    assert_eq!(validate_current_audit_envelope(&audit_envelope()), Ok(()));
    assert_eq!(validate_saved_schema(EnvelopeKind::Audit, &audit_envelope(), Some(2)), Ok(()));
}

#[test]
fn audit_envelope_checks_report_the_first_problem() {
    let mut e = audit_envelope();
    e.fields[3].1 = text("check");
    assert_eq!(
        validate_current_audit_envelope(&e),
        Err("saved audit envelope field `command` must be `audit`".to_string())
    );
    let mut e = audit_envelope();
    e.summary.remove(1);
    assert_eq!(
        validate_current_audit_envelope(&e),
        Err("saved audit envelope is missing required field `summary.complexity_findings`".to_string())
    );
    let mut e = audit_envelope();
    e.attribution[9].1 = SavedValue::Bool(true);
    assert_eq!(
        validate_current_audit_envelope(&e),
        Err("saved audit envelope field `attribution.duplication_demoted` must be a non-negative integer".to_string())
    );
    let mut e = audit_envelope();
    e.attribution[0].1 = text("some");
    assert_eq!(
        validate_current_audit_envelope(&e),
        Err("saved audit envelope field `attribution.gate` must be `new-only` or `all`".to_string())
    );
}

#[test]
fn schema_versions_outside_the_supported_range_are_refused() {
    assert_eq!(
        validate_saved_schema(EnvelopeKind::Audit, &audit_envelope(), Some(1)),
        Err("unsupported saved audit schema version 2; this Fallow version supports versions 1 through 1".to_string())
    );
    let mut e = audit_envelope();
    e.fields[0].1 = text("2");
    assert_eq!(
        validate_saved_schema(EnvelopeKind::Audit, &e, Some(2)),
        Err("saved audit envelope has a non-numeric `schema_version`".to_string())
    );
    // An older version is accepted without the current-version checks.
    let mut e = audit_envelope();
    e.fields[3].1 = text("check");
    assert_eq!(validate_saved_schema(EnvelopeKind::Audit, &e, Some(3)), Ok(()));
    assert!(saved_schema_is_legacy(&e, Some(3)));
    assert!(!saved_schema_is_legacy(&audit_envelope(), Some(2)));
}

#[test]
fn categories_and_severities() {
    assert_eq!(native_category("fallow/code-duplication"), "Duplication");
    assert_eq!(native_category("fallow/high-complexity"), "Complexity");
    assert_eq!(native_category("fallow/css-unused"), "Style");
    assert_eq!(native_category("fallow/untested-export"), "Coverage");
    assert_eq!(native_category("fallow/unused-export"), "Bug Risk");
    assert_eq!(sarif_level_to_codeclimate("error"), CodeClimateSeverity::Major);
    assert_eq!(sarif_level_to_codeclimate("warning"), CodeClimateSeverity::Minor);
    assert_eq!(sarif_level_to_codeclimate("note"), CodeClimateSeverity::Info);
}

#[test]
fn fingerprint_parts_follow_the_rule() {
    assert_eq!(first_quoted_subject("Package 'lodash' is unused"), Some("lodash".to_string()));
    assert_eq!(first_quoted_subject("Empty '' subject"), None);
    assert_eq!(first_quoted_subject("no quotes"), None);
    assert_eq!(
        envelope_fingerprint_parts("fallow/unused-file", "src/a.ts", 1, "File 'a'"),
        vec!["fallow/unused-file".to_string(), "src/a.ts".to_string()]
    );
    assert_eq!(
        envelope_fingerprint_parts("fallow/unused-dependency", "package.json", 4, "Package 'lodash' is unused"),
        vec!["fallow/unused-dependency".to_string(), "lodash".to_string()]
    );
    assert_eq!(
        envelope_fingerprint_parts("fallow/unused-export", "src/a.ts", 12, "Export 'x' is unused"),
        vec!["fallow/unused-export".to_string(), "src/a.ts".to_string(), "12".to_string(), "x".to_string()]
    );
    assert_eq!(
        envelope_fingerprint_parts("fallow/unused-export", "src/a.ts", 12, "no subject"),
        vec!["fallow/unused-export".to_string(), "src/a.ts".to_string(), "12".to_string()]
    );
}

#[test]
fn every_current_saved_analysis_envelope_requires_its_root_header() {
    for (kind, schema_version) in [
        (EnvelopeKind::DeadCode, 7u32),
        (EnvelopeKind::Dupes, 3u32),
        (EnvelopeKind::Health, 5u32),
        (EnvelopeKind::Audit, 2u32),
        (EnvelopeKind::Combined, 4u32),
    ] {
        let envelope = SavedEnvelope {
            fields: vec![(
                "schema_version".to_string(),
                SavedValue::UnsignedInteger(u64::from(schema_version)),
            )],
            summary: Vec::new(),
            attribution: Vec::new(),
            grouped_dead_code: false,
        };
        let error = validate_saved_schema(kind, &envelope, Some(schema_version))
            .expect_err("current envelope without its root header must fail closed");
        assert_eq!(
            error,
            format!("saved {} envelope is missing required field `version`", envelope_kind_label(kind))
        );
        assert_eq!(validate_current_saved_envelope(kind, &envelope), Err(error));
    }
}

#[test]
fn severity_error_maps_to_major() {
    assert_eq!(severity_to_codeclimate(Severity::Error), CodeClimateSeverity::Major);
}

#[test]
fn severity_warn_maps_to_minor() {
    assert_eq!(severity_to_codeclimate(Severity::Warn), CodeClimateSeverity::Minor);
}

#[test]
fn health_finding_severity_critical_maps_to_critical() {
    assert_eq!(health_finding_severity(FindingSeverity::Critical), CodeClimateSeverity::Critical);
}

#[test]
fn health_finding_severity_moderate_maps_to_minor() {
    assert_eq!(health_finding_severity(FindingSeverity::Moderate), CodeClimateSeverity::Minor);
}

#[test]
fn health_finding_severity_high_maps_to_major() {
    assert_eq!(health_finding_severity(FindingSeverity::High), CodeClimateSeverity::Major);
}

#[test]
fn runtime_coverage_check_name_safe_to_delete() {
    assert_eq!(
        runtime_coverage_check_name(RuntimeCoverageVerdict::SafeToDelete),
        "fallow/runtime-safe-to-delete"
    );
}

#[test]
fn runtime_coverage_check_name_low_traffic() {
    assert_eq!(runtime_coverage_check_name(RuntimeCoverageVerdict::LowTraffic), "fallow/runtime-low-traffic");
}

#[test]
fn runtime_coverage_check_name_coverage_unavailable() {
    assert_eq!(
        runtime_coverage_check_name(RuntimeCoverageVerdict::CoverageUnavailable),
        "fallow/runtime-coverage-unavailable"
    );
}

#[test]
fn runtime_coverage_check_name_active_and_unknown_use_generic() {
    assert_eq!(runtime_coverage_check_name(RuntimeCoverageVerdict::Active), "fallow/runtime-coverage");
    assert_eq!(runtime_coverage_check_name(RuntimeCoverageVerdict::Unknown), "fallow/runtime-coverage");
}

#[test]
fn runtime_coverage_severity_safe_to_delete_is_critical() {
    assert_eq!(runtime_coverage_severity(RuntimeCoverageVerdict::SafeToDelete), CodeClimateSeverity::Critical);
}

#[test]
fn runtime_coverage_severity_review_required_is_major() {
    assert_eq!(runtime_coverage_severity(RuntimeCoverageVerdict::ReviewRequired), CodeClimateSeverity::Major);
}

#[test]
fn runtime_coverage_severity_other_verdicts_are_minor() {
    assert_eq!(runtime_coverage_severity(RuntimeCoverageVerdict::LowTraffic), CodeClimateSeverity::Minor);
    assert_eq!(runtime_coverage_severity(RuntimeCoverageVerdict::Active), CodeClimateSeverity::Minor);
}

#[test]
fn coverage_intelligence_severity_review_required_is_minor() {
    assert_eq!(
        coverage_intelligence_severity(CoverageIntelligenceVerdict::ReviewRequired),
        Some(CodeClimateSeverity::Minor)
    );
}

#[test]
fn coverage_intelligence_severity_refactor_carefully_is_minor() {
    assert_eq!(
        coverage_intelligence_severity(CoverageIntelligenceVerdict::RefactorCarefully),
        Some(CodeClimateSeverity::Minor)
    );
}

#[test]
fn coverage_intelligence_severity_clean_is_none() {
    assert_eq!(coverage_intelligence_severity(CoverageIntelligenceVerdict::Clean), None);
}

#[test]
fn coverage_intelligence_severity_unknown_is_none() {
    assert_eq!(coverage_intelligence_severity(CoverageIntelligenceVerdict::Unknown), None);
}

#[test]
fn coverage_intelligence_severity_risky_and_delete_are_major() {
    assert_eq!(
        coverage_intelligence_severity(CoverageIntelligenceVerdict::RiskyChangeDetected),
        Some(CodeClimateSeverity::Major)
    );
    assert_eq!(
        coverage_intelligence_severity(CoverageIntelligenceVerdict::HighConfidenceDelete),
        Some(CodeClimateSeverity::Major)
    );
}

#[test]
fn coverage_intelligence_check_name_review_before_changing() {
    assert_eq!(
        coverage_intelligence_check_name(CoverageIntelligenceRecommendation::ReviewBeforeChanging),
        "fallow/coverage-intelligence-review"
    );
}

#[test]
fn coverage_intelligence_check_name_refactor_carefully() {
    assert_eq!(
        coverage_intelligence_check_name(CoverageIntelligenceRecommendation::RefactorCarefullyKeepBehavior),
        "fallow/coverage-intelligence-refactor"
    );
}

fn dead_code_envelope(total: Option<SavedValue>) -> SavedEnvelope {
    let mut fields = vec![("schema_version".to_string(), SavedValue::UnsignedInteger(7))];
    if let Some(total) = total {
        fields.push(("total_issues".to_string(), total));
    }
    SavedEnvelope { fields, summary: Vec::new(), attribution: Vec::new(), grouped_dead_code: false }
}

#[test]
fn current_dead_code_envelope_rejects_an_inconsistent_finding_total() {
    let envelope = dead_code_envelope(Some(SavedValue::UnsignedInteger(1)));
    assert_eq!(
        check_saved_dead_code_total(&envelope, false, 0),
        Err("saved dead-code envelope declares 1 findings but contains 0".to_string())
    );
}

#[test]
fn a_consistent_or_legacy_dead_code_total_passes() {
    let envelope = dead_code_envelope(Some(SavedValue::UnsignedInteger(3)));
    assert_eq!(check_saved_dead_code_total(&envelope, false, 3), Ok(()));
    assert_eq!(check_saved_dead_code_total(&envelope, true, 2), Ok(()));
}

#[test]
fn current_dead_code_envelope_needs_a_declared_total() {
    for envelope in [dead_code_envelope(None), dead_code_envelope(Some(SavedValue::OtherNumber))] {
        assert_eq!(
            check_saved_dead_code_total(&envelope, false, 0),
            Err("saved dead-code envelope is missing a non-negative integer `total_issues`".to_string())
        );
    }
}
