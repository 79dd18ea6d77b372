use fallow_cli::gate_outcome_text::{
    annotation_line, gate_label, gate_rows, gate_rows_for_gates, known_gate_label, read_gate_lines,
    summary_line, summary_line_for_gates, GateEntry, GateLine,
};
use fallow_cli::pr_comment::PrDecisionConclusion;

fn gate(name: &str, status: &str, enforced: bool) -> GateLine {
    GateLine {
        name: name.to_string(),
        status: status.to_string(),
        enforced,
        observed: None,
        threshold: None,
        threshold_label: None,
    }
}

#[test]
fn gate_outcome_text_an_envelope_without_the_object_renders_nothing() {
    assert!(summary_line(&vec![]).is_none());
    assert!(annotation_line(&vec![]).is_none());
}

#[test]
fn an_envelope_without_the_object_builds_no_rows() {
    assert!(gate_rows(&vec![]).is_empty());
    assert!(gate_rows(&read_gate_lines(&vec![])).is_empty());
}

#[test]
fn passing_gates_are_named_on_their_own() {
    assert_eq!(
        summary_line(&vec![gate("regression", "pass", true)]).expect("a gate ran"),
        "Gate outcomes: passed regression."
    );
}

#[test]
fn an_unrecognised_gate_name_still_reports() {
    assert_eq!(
        annotation_line(&vec![gate("some-future-gate", "fail", true)]).expect("a gate ran"),
        "::notice::Fallow: Gate outcomes: failed some-future-gate."
    );
}

#[test]
fn a_named_floor_is_carried_as_the_threshold() {
    let mut g = gate("health-min-severity", "fail", true);
    g.observed = Some("3".to_string());
    g.threshold_label = Some("critical".to_string());
    let rows = gate_rows(&vec![g]);
    assert_eq!(rows[0].observed, "3 at or above critical");
    assert_eq!(rows[0].threshold.as_deref(), Some("critical"));
}

#[test]
fn a_failing_gate_names_what_it_compared() {
    let mut g = gate("health-min-score", "fail", true);
    g.observed = Some("85".to_string());
    g.threshold = Some("90".to_string());
    assert_eq!(
        summary_line(&vec![g]).expect("a gate ran"),
        "Gate outcomes: failed health-min-score (85 against 90)."
    );
}

#[test]
fn the_annotation_is_always_a_notice() {
    for enforced in [true, false] {
        let line = annotation_line(&vec![gate("audit-verdict", "fail", enforced)]).expect("a gate ran");
        assert!(line.starts_with("::notice::"), "{line}");
    }
}

#[test]
fn an_unenforced_failure_says_it_does_not_fail_the_run() {
    assert_eq!(
        summary_line(&vec![gate("stale-baseline", "fail", false)]).expect("a gate ran"),
        "Gate outcomes: failed stale-baseline (none of which fails this run)."
    );
}

#[test]
fn a_stood_down_gate_is_not_a_pass() {
    assert_eq!(
        summary_line(&vec![gate("stale-baseline", "skipped", false)]).expect("a gate ran"),
        "Gate outcomes: stood down stale-baseline."
    );
}

#[test]
fn a_warn_tier_is_not_a_pass() {
    assert_eq!(
        summary_line(&vec![gate("audit-verdict", "warn", true)]).expect("a gate ran"),
        "Gate outcomes: warned audit-verdict."
    );
}

#[test]
fn all_four_outcomes_stay_apart_in_one_line() {
    let gates = vec![
        gate("audit-verdict", "warn", true),
        gate("duplication-threshold", "pass", true),
        gate("regression", "fail", true),
        gate("stale-baseline", "skipped", false),
    ];
    assert_eq!(
        summary_line(&gates).expect("gates ran"),
        "Gate outcomes: failed regression; warned audit-verdict; stood down stale-baseline; passed duplication-threshold."
    );
}

#[test]
fn a_named_floor_is_rendered_instead_of_a_number() {
    let mut g = gate("health-min-severity", "fail", true);
    g.observed = Some("3".to_string());
    g.threshold_label = Some("critical".to_string());
    assert_eq!(
        summary_line(&vec![g]).expect("a gate ran"),
        "Gate outcomes: failed health-min-severity (3 at or above critical)."
    );
}

#[test]
fn an_unrecognised_status_is_not_a_pass() {
    assert_eq!(
        summary_line(&vec![gate("some-future-gate", "deferred", false)]).expect("a gate ran"),
        "Gate outcomes: warned some-future-gate."
    );
    assert_eq!(
        annotation_line(&vec![gate("some-future-gate", "fail", true)]).expect("a gate ran"),
        "::notice::Fallow: Gate outcomes: failed some-future-gate."
    );
}

#[test]
fn a_mix_of_enforced_and_unenforced_failures_adds_no_note() {
    assert_eq!(
        summary_line(&vec![gate("regression", "fail", true), gate("stale-baseline", "fail", false)])
            .expect("gates ran"),
        "Gate outcomes: failed regression, stale-baseline."
    );
}

#[test]
fn an_armed_stale_baseline_gate_becomes_a_failing_row() {
    let rows = gate_rows(&vec![gate("stale-baseline", "fail", true)]);
    assert_eq!(rows.len(), 1);
    assert_eq!(rows[0].id, "stale-baseline");
    assert_eq!(rows[0].label, "Stale baseline");
    assert_eq!(rows[0].status, PrDecisionConclusion::Failure);
    assert_eq!(rows[0].observed, "fail");
    assert_eq!(rows[0].threshold, None);
    assert_eq!(rows[0].scope, "this run");
}

#[test]
fn the_four_statuses_map_onto_the_check_run_conclusions() {
    for (status, enforced, expected) in [
        ("fail", true, PrDecisionConclusion::Failure),
        ("fail", false, PrDecisionConclusion::Neutral),
        ("warn", true, PrDecisionConclusion::Neutral),
        ("skipped", false, PrDecisionConclusion::Skipped),
        ("pass", true, PrDecisionConclusion::Success),
        ("deferred", true, PrDecisionConclusion::Neutral),
    ] {
        let rows = gate_rows(&vec![gate("stale-baseline", status, enforced)]);
        assert_eq!(rows[0].status, expected, "{status} enforced={enforced}");
        assert_eq!(rows[0].observed, status);
    }
}

#[test]
fn a_measured_gate_carries_both_numbers() {
    let mut g = gate("health-min-score", "fail", true);
    g.observed = Some("85".to_string());
    g.threshold = Some("90".to_string());
    let rows = gate_rows(&vec![g]);
    assert_eq!(rows[0].observed, "85 against 90");
    assert_eq!(rows[0].threshold.as_deref(), Some("90"));
}

#[test]
fn an_unrecognised_gate_name_still_builds_a_readable_row() {
    let rows = gate_rows(&vec![gate("some-future-gate", "fail", true)]);
    assert_eq!(rows[0].id, "some-future-gate");
    assert_eq!(rows[0].label, "Some future gate");
    assert_eq!(known_gate_label("type-aware-require"), Some("Type-aware completeness"));
    assert_eq!(gate_label("health-coverage-gaps"), "Coverage gaps");
    assert_eq!(gate_label(""), "");
}

#[test]
fn entries_without_a_status_or_enforcement_are_not_gates() {
    let entry = |name: &str, status: Option<&str>, enforced: Option<bool>| GateEntry {
        name: name.to_string(),
        status: status.map(str::to_string),
        enforced,
        observed: None,
        threshold: None,
        threshold_label: None,
    };
    let lines = read_gate_lines(&vec![
        entry("a", Some("pass"), Some(true)),
        entry("b", None, Some(true)),
        entry("c", Some("fail"), None),
        entry("d", Some("fail"), Some(false)),
    ]);
    assert_eq!(lines.len(), 2);
    assert_eq!(lines[0].name, "a");
    assert_eq!(lines[1].name, "d");
    assert!(!lines[1].enforced);
}

#[test]
fn the_live_and_saved_forms_render_alike() {
    let gates = vec![gate("stale-baseline", "fail", true), gate("health-min-score", "pass", false)];
    assert_eq!(summary_line_for_gates(Some(&gates)), summary_line(&gates));
    assert!(summary_line_for_gates(Some(&gates)).is_some());
    assert!(summary_line_for_gates(None).is_none());
    assert_eq!(gate_rows_for_gates(Some(&gates)).len(), 2);
    assert_eq!(gate_rows_for_gates(Some(&gates))[0].status, gate_rows(&gates)[0].status);
    assert!(gate_rows_for_gates(None).is_empty());
}
