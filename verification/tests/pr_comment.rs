use fallow_cli::pr_comment::{
    count_label, decision_level_from_severity, decision_summary_label, decision_summary_markdown,
    issue_decision_conclusion, sanitize_marker_segment, set_workspace_marker_from_list, next_workspace_marker,
    short_hex_hash, sticky_marker_id, with_status_note, PrDecisionAnnotationLevel,
    PrDecisionConclusion,
};

#[test]
fn short_hex_hash_is_deterministic_and_six_chars() {
    let a = short_hex_hash("api,worker");
    assert_eq!(a.len(), 6);
    assert_eq!(a, short_hex_hash("api,worker"));
    assert_ne!(a, short_hex_hash("admin,web"));
}

#[test]
fn short_hex_hash_is_the_low_24_bits_of_fnv1a() {
    let mut h: u64 = 0xcbf2_9ce4_8422_2325;
    for b in "api,worker".bytes() {
        h ^= u64::from(b);
        h = h.wrapping_mul(0x0100_0000_01b3);
    }
    assert_eq!(short_hex_hash("api,worker"), format!("{:06x}", h & 0x00ff_ffff));
    assert_eq!(short_hex_hash(""), "222325");
}

#[test]
fn sanitize_marker_segment_collapses_unsafe_chars_to_dashes() {
    assert_eq!(sanitize_marker_segment("@fallow/runtime"), "fallow-runtime");
    assert_eq!(sanitize_marker_segment("packages/web ui"), "packages-web-ui");
    assert_eq!(sanitize_marker_segment("plain"), "plain");
    assert_eq!(sanitize_marker_segment("--leading-trailing--"), "leading-trailing");
}

#[test]
fn sanitize_marker_segment_keeps_dots_and_underscores_and_drops_all_dashes() {
    assert_eq!(sanitize_marker_segment("a_b.c"), "a_b.c");
    assert_eq!(sanitize_marker_segment("<-->"), "");
    assert_eq!(sanitize_marker_segment("é"), "");
}

#[test]
fn workspace_marker_is_none_without_a_name() {
    assert_eq!(set_workspace_marker_from_list(&[]), None);
    assert_eq!(set_workspace_marker_from_list(&["  ".to_string(), String::new()]), None);
}

#[test]
fn workspace_marker_for_one_name_is_the_trimmed_name() {
    assert_eq!(
        set_workspace_marker_from_list(&[" web ".to_string(), " ".to_string()]),
        Some("web".to_string())
    );
}

#[test]
fn workspace_marker_for_several_names_hashes_the_sorted_list() {
    let marker = set_workspace_marker_from_list(&["worker".to_string(), " api".to_string()]);
    assert_eq!(marker, Some(format!("w-{}", short_hex_hash("api,worker"))));
    let reversed = set_workspace_marker_from_list(&["api".to_string(), "worker".to_string()]);
    assert_eq!(marker, reversed);
    let other = set_workspace_marker_from_list(&["admin".to_string(), "web".to_string()]);
    assert_ne!(marker, other);
}

#[test]
fn sticky_marker_id_precedence() {
    assert_eq!(sticky_marker_id(None, None), "fallow-results");
    assert_eq!(sticky_marker_id(Some("mine"), Some("web")), "mine");
    assert_eq!(sticky_marker_id(Some("  "), Some("@acme/web")), "fallow-results-acme-web");
    assert_eq!(sticky_marker_id(None, Some("  ")), "fallow-results");
}

#[test]
fn decision_surface_labels_and_levels() {
    assert_eq!(issue_decision_conclusion(true), PrDecisionConclusion::Success);
    assert_eq!(issue_decision_conclusion(false), PrDecisionConclusion::Neutral);
    assert_eq!(decision_summary_label(PrDecisionConclusion::Success), "pass");
    assert_eq!(decision_summary_label(PrDecisionConclusion::Failure), "fail");
    assert_eq!(decision_summary_label(PrDecisionConclusion::Neutral), "warn");
    assert_eq!(decision_summary_label(PrDecisionConclusion::Skipped), "skipped");
    assert_eq!(decision_level_from_severity("critical"), PrDecisionAnnotationLevel::Failure);
    assert_eq!(decision_level_from_severity("minor"), PrDecisionAnnotationLevel::Warning);
    assert_eq!(decision_level_from_severity("info"), PrDecisionAnnotationLevel::Notice);
}

#[test]
fn decision_summary_markdown_counts_findings() {
    assert_eq!(count_label(1, "finding", "findings"), "1 finding");
    assert_eq!(count_label(0, "finding", "findings"), "0 findings");
    assert_eq!(
        decision_summary_markdown(PrDecisionConclusion::Failure, 0, None),
        "Fallow quality gates failed without renderable findings."
    );
    assert_eq!(
        decision_summary_markdown(PrDecisionConclusion::Neutral, 3, Some("note")),
        "Fallow found 3 findings for review.\n\n> note"
    );
    assert_eq!(
        decision_summary_markdown(PrDecisionConclusion::Success, 1, None),
        "Fallow found 1 finding."
    );
    assert_eq!(with_status_note("body".to_string(), Some("m")), "body\n\n> m");
    assert_eq!(with_status_note("body".to_string(), None), "body");
}

#[test]
fn a_workspace_marker_is_set_once_and_a_blank_selection_sets_nothing() {
    let app = vec!["app".to_string()];
    assert_eq!(next_workspace_marker(None, &[" ".to_string()]), None);
    assert_eq!(next_workspace_marker(None, &app), Some("app".to_string()));
    let held = Some("web".to_string());
    assert_eq!(next_workspace_marker(held.clone(), &app), held);
    assert_eq!(next_workspace_marker(held.clone(), &[]), held);
}
