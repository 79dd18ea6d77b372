use fallow_cli::request_outcome_text::{
    annotation_line, overlay_live_diff_filter, read_request_lines, summary_line,
    summary_line_with_live_diff_filter, RequestEntry, RequestLine,
};

fn request(name: &str, status: &str, affects: Option<&str>, reason: Option<&str>, scope_size: Option<u64>) -> RequestLine {
    RequestLine {
        name: name.to_string(),
        status: status.to_string(),
        affects: affects.map(str::to_string),
        reason: reason.map(str::to_string),
        scope_size,
    }
}

#[test]
fn an_envelope_without_requests_renders_nothing() {
    assert!(summary_line(&vec![]).is_none());
    assert!(annotation_line(&vec![]).is_none());
}

#[test]
fn an_unapplied_request_names_its_reason_and_says_the_report_widened() {
    let lines = vec![request("changed-since", "not-applied", Some("scope"), Some("invalid-ref"), None)];
    assert_eq!(
        summary_line(&lines).expect("a request was received"),
        "Request outcomes: not applied changed-since (invalid-ref). Anything not applied means this report is wider than requested."
    );
}

#[test]
fn an_applied_request_states_the_scope_without_a_warning_clause() {
    let lines = vec![request("diff-filter", "applied", Some("scope"), None, Some(12))];
    assert_eq!(summary_line(&lines).expect("a request was received"), "Request outcomes: applied diff-filter.");
}

#[test]
fn an_unwritten_artifact_does_not_claim_a_wider_report() {
    let lines = vec![
        request("changed-since", "applied", Some("scope"), None, None),
        request("sarif-file", "not-applied", Some("artifact"), Some("write-failed"), None),
    ];
    assert_eq!(
        summary_line(&lines).expect("requests"),
        "Request outcomes: not applied sarif-file (write-failed); applied changed-since. A requested output file was not written, so anything reading it has nothing to read; the report itself is unaffected."
    );
}

#[test]
fn an_empty_applied_scope_is_stated() {
    let lines = vec![request("diff-filter", "applied", Some("scope"), None, Some(0))];
    let line = summary_line(&lines).expect("a request");
    assert!(line.ends_with("check the diff or ref this run was given."), "{line}");
    assert_eq!(
        annotation_line(&lines).expect("a request"),
        format!("::notice::Fallow: {line}")
    );
}

#[test]
fn an_unknown_status_is_not_applied() {
    let lines = vec![request("future", "partial", None, None, Some(0))];
    assert_eq!(summary_line(&lines).expect("a request"), "Request outcomes: not applied future.");
}

#[test]
fn entries_without_a_status_are_not_requests() {
    let lines = read_request_lines(&vec![
        RequestEntry { name: "a".to_string(), status: None, affects: None, reason: None, scope_size: None },
        RequestEntry {
            name: "b".to_string(),
            status: Some("applied".to_string()),
            affects: Some("scope".to_string()),
            reason: None,
            scope_size: Some(3),
        },
    ]);
    assert_eq!(lines.len(), 1);
    assert_eq!(lines[0].name, "b");
    assert_eq!(lines[0].scope_size, Some(3));
}

#[test]
fn request_outcome_text_an_envelope_without_the_object_renders_nothing() {
    let bare = read_request_lines(&vec![]);
    assert!(summary_line(&bare).is_none());
    assert!(annotation_line(&bare).is_none());
}

#[test]
fn a_measured_non_empty_scope_adds_no_clause() {
    let lines = vec![request("diff-filter", "applied", Some("scope"), None, Some(12))];
    assert_eq!(summary_line(&lines).expect("a request was received"), "Request outcomes: applied diff-filter.");
}

#[test]
fn an_applied_request_over_an_empty_scope_says_the_report_covered_nothing() {
    let lines = vec![request("diff-filter", "applied", Some("scope"), None, Some(0))];
    assert_eq!(
        summary_line(&lines).expect("a request was received"),
        "Request outcomes: applied diff-filter. \
         A narrowing request applied over an empty scope, so this report is clean \
         because nothing in it was analyzable; check the diff or ref this run was given."
    );
}

#[test]
fn an_empty_scope_on_an_artifact_request_claims_nothing() {
    let lines = vec![request("sarif-file", "applied", Some("artifact"), None, Some(0))];
    assert_eq!(summary_line(&lines).expect("a request was received"), "Request outcomes: applied sarif-file.");
}

#[test]
fn a_mixed_run_keeps_the_two_groups_apart_in_one_line() {
    let lines = vec![
        request("changed-since", "not-applied", Some("scope"), Some("git-failed"), None),
        request("diff-filter", "applied", Some("scope"), None, None),
    ];
    assert_eq!(
        summary_line(&lines).expect("requests were received"),
        "Request outcomes: not applied changed-since (git-failed); applied diff-filter. \
         Anything not applied means this report is wider than requested."
    );
}

#[test]
fn an_unwritten_artifact_does_not_claim_the_report_widened() {
    let lines = vec![request("sarif-file", "not-applied", Some("artifact"), Some("write-failed"), None)];
    let line = summary_line(&lines).expect("a request was received");
    assert!(!line.contains("wider than requested"), "an unwritten file did not widen the report: {line}");
    assert!(line.contains("A requested output file was not written"), "{line}");
}

#[test]
fn a_run_that_widened_and_withheld_states_both() {
    let lines = vec![
        request("changed-since", "not-applied", Some("scope"), Some("git-failed"), None),
        request("sarif-file", "not-applied", Some("artifact"), Some("write-failed"), None),
    ];
    let line = summary_line(&lines).expect("requests were received");
    let widened = line.find("wider than requested").expect("the scope clause");
    let withheld = line.find("A requested output file was not written").expect("the artifact clause");
    assert!(widened < withheld, "{line}");
}

#[test]
fn an_unrecognised_request_name_still_reports() {
    let lines = vec![request("some-future-request", "not-applied", Some("scope"), None, None)];
    assert_eq!(
        annotation_line(&lines).expect("a request was received"),
        "::notice::Fallow: Request outcomes: not applied some-future-request. \
         Anything not applied means this report is wider than requested."
    );
}

#[test]
fn an_unrecognised_class_claims_neither_sentence() {
    let lines = vec![request("some-future-request", "not-applied", Some("some-future-class"), None, None)];
    assert_eq!(
        summary_line(&lines).expect("a request was received"),
        "Request outcomes: not applied some-future-request."
    );
}

fn live_diff_filter(status: &str, reason: Option<&str>) -> RequestLine {
    request("diff-filter", status, Some("scope"), reason, None)
}

#[test]
fn a_re_render_states_the_diff_filter_it_resolved_itself() {
    let saved = vec![request("diff-filter", "applied", Some("scope"), None, None)];
    let live = live_diff_filter("not-applied", Some("oversize"));
    assert_eq!(
        summary_line_with_live_diff_filter(&saved, Some(&live)).expect("a request was received"),
        "Request outcomes: not applied diff-filter (oversize). \
         Anything not applied means this report is wider than requested."
    );
}

#[test]
fn the_overlay_keeps_the_producing_run_channels_and_the_wire_order() {
    let saved = vec![
        request("changed-since", "applied", Some("scope"), None, None),
        request("sarif-file", "not-applied", Some("artifact"), Some("write-failed"), None),
    ];
    let live = live_diff_filter("not-applied", Some("foreign-namespace"));
    let line = summary_line_with_live_diff_filter(&saved, Some(&live)).expect("requests were received");
    assert_eq!(
        line,
        "Request outcomes: not applied diff-filter (foreign-namespace), \
         sarif-file (write-failed); applied changed-since. \
         Anything not applied means this report is wider than requested. \
         A requested output file was not written, so anything reading it has nothing \
         to read; the report itself is unaffected."
    );
}

#[test]
fn a_filter_that_applied_here_does_not_overwrite_the_saved_stand_down() {
    let saved = vec![request("diff-filter", "not-applied", Some("scope"), Some("not-utf8"), None)];
    let live = live_diff_filter("applied", None);
    assert_eq!(summary_line_with_live_diff_filter(&saved, Some(&live)), summary_line(&saved));
}

#[test]
fn a_filter_that_applied_here_adds_no_clause_of_its_own() {
    let live = live_diff_filter("applied", None);
    assert!(summary_line_with_live_diff_filter(&vec![], Some(&live)).is_none());
}

#[test]
fn no_live_diff_leaves_the_saved_object_alone() {
    let saved = vec![request("diff-filter", "not-applied", Some("scope"), Some("not-utf8"), None)];
    assert_eq!(summary_line_with_live_diff_filter(&saved, None), summary_line(&saved));
}

#[test]
fn an_unrecognised_status_is_not_applied() {
    let lines = vec![request("changed-since", "partial", Some("scope"), None, None)];
    assert_eq!(
        summary_line(&lines).expect("a request was received"),
        "Request outcomes: not applied changed-since. \
         Anything not applied means this report is wider than requested."
    );
}

#[test]
fn the_overlay_sorts_saved_channels_by_name() {
    let saved = vec![
        request("sarif-file", "applied", Some("artifact"), None, None),
        request("changed-since", "applied", Some("scope"), None, None),
        request("diff-filter", "applied", Some("scope"), None, None),
    ];
    let live = live_diff_filter("not-applied", Some("oversize"));
    let merged = overlay_live_diff_filter(&saved, Some(&live));
    let names: Vec<&str> = merged.iter().map(|l| l.name.as_str()).collect();
    assert_eq!(names, vec!["changed-since", "diff-filter", "sarif-file"]);
    assert_eq!(merged[1].reason.as_deref(), Some("oversize"));
}
