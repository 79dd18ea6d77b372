use fallow_cli::baseline_advisory_text::{
    advisory_line, advisory_line_for_staleness, capitalize, subject, BaselineSite, BaselineStaleness,
};

fn staleness(warning: &str, entries: u64, matched: u64, gate_trips: bool) -> BaselineStaleness {
    BaselineStaleness {
        warning: Some(warning.to_string()),
        gate_trips: Some(gate_trips),
        baseline_entries: Some(entries),
        stale_entries: Some(entries - matched),
        unrecognised_format: None,
        saved_by: None,
    }
}

fn root(s: BaselineStaleness) -> Vec<BaselineSite> {
    vec![BaselineSite { staleness: s, analysis: None }]
}

#[test]
fn an_envelope_without_a_baseline_says_nothing() {
    assert!(advisory_line(&vec![]).is_none());
}

#[test]
fn a_partially_stale_baseline_names_both_counts() {
    assert_eq!(
        advisory_line(&root(staleness("partial", 8, 3, true))).expect("a baseline was loaded"),
        "**Baseline is partially stale.** 5 of 8 saved entries matched nothing this run, so the baseline protects less than what was saved. Re-save it from a whole-project run."
    );
}

#[test]
fn a_baseline_that_matched_nothing_says_so() {
    assert_eq!(
        advisory_line(&root(staleness("zero-overlap", 8, 0, true))).expect("a baseline was loaded"),
        "**Baseline matched nothing.** All 8 saved entries went unmatched. Paths may have changed, or the baseline was saved elsewhere. Re-save it from a whole-project run."
    );
}

#[test]
fn a_tripped_gate_reports_even_with_no_advisory() {
    assert_eq!(
        advisory_line(&root(staleness("none", 8, 0, true))).expect("stale entries were counted"),
        "**Baseline has stale entries.** 8 of 8 saved entries matched nothing this run. The project may be clean, or the baseline may no longer describe it."
    );
}

#[test]
fn a_fresh_baseline_says_nothing() {
    assert!(advisory_line(&root(staleness("none", 8, 8, false))).is_none());
    assert!(advisory_line(&root(staleness("none", 0, 0, false))).is_none());
}

#[test]
fn a_baseline_nothing_recognises_gets_its_own_sentence() {
    let mut object = staleness("none", 0, 0, true);
    object.unrecognised_format = Some(true);
    assert_eq!(
        advisory_line(&root(object)).expect("the file was not this command's"),
        "**Baseline recognises nothing.** The baseline has no entries this command recognises. It may be a baseline saved by another command, or an empty file. Either way it suppresses nothing."
    );
}

#[test]
fn a_foreign_baseline_names_the_command_that_saved_it() {
    let mut object = staleness("none", 0, 0, true);
    object.unrecognised_format = Some(true);
    object.saved_by = Some("health".to_string());
    assert_eq!(
        advisory_line(&root(object)).expect("the file was not this command's"),
        "**Baseline recognises nothing.** `fallow health` saved this baseline, so this command reads nothing from it and it suppresses nothing."
    );
    let mut object = staleness("none", 0, 0, true);
    object.unrecognised_format = Some(true);
    object.saved_by = Some("<b>x</b>".to_string());
    assert!(advisory_line(&root(object))
        .expect("the file was not this command's")
        .contains("It may be a baseline saved by another command"));
}

#[test]
fn an_unrecognised_advisory_falls_back_to_the_gate_rule() {
    let mut object = staleness("some-future-advisory", 8, 2, true);
    assert!(advisory_line(&root(staleness("some-future-advisory", 8, 2, true))).is_some());
    object.gate_trips = Some(false);
    assert!(advisory_line(&root(object)).is_none());
}

#[test]
fn a_multi_section_envelope_names_each_baseline() {
    let sites = vec![
        BaselineSite { staleness: staleness("zero-overlap", 3, 0, true), analysis: Some("dead-code".to_string()) },
        BaselineSite { staleness: staleness("partial", 8, 2, true), analysis: Some("complexity".to_string()) },
    ];
    let line = advisory_line(&sites).expect("two baselines were loaded");
    assert!(line.contains("**Dead-code baseline matched nothing.**"), "{line}");
    assert!(line.contains("**Complexity baseline is partially stale.**"), "{line}");
    assert!(line.contains("run. **Complexity"), "{line}");
}

#[test]
fn subject_capitalizes_only_the_first_character() {
    assert_eq!(capitalize("dead-code"), "Dead-code");
    assert_eq!(capitalize(""), "");
    assert_eq!(capitalize("ßx"), "SSx");
    assert_eq!(subject(None), "Baseline");
    assert_eq!(subject(Some("health")), "Health baseline");
}

#[test]
fn an_empty_baseline_of_this_commands_own_says_nothing() {
    assert!(advisory_line(&root(staleness("none", 0, 0, false))).is_none());
}

#[test]
fn a_multi_section_envelope_names_the_baseline_nothing_recognises() {
    let mut object = staleness("none", 0, 0, true);
    object.unrecognised_format = Some(true);
    let sites = vec![BaselineSite { staleness: object, analysis: Some("complexity".to_string()) }];
    let line = advisory_line(&sites).expect("the file was not this command's");
    assert!(line.starts_with("**Complexity baseline recognises nothing.**"), "{line}");
}

#[test]
fn a_change_scoped_run_says_nothing() {
    assert!(advisory_line(&root(staleness("none", 8, 0, false))).is_none());
}

#[test]
fn health_publishes_inside_summary_and_reads_the_same() {
    let sites = vec![BaselineSite { staleness: staleness("partial", 4, 1, true), analysis: None }];
    let line = advisory_line(&sites).expect("a baseline was loaded");
    assert!(line.starts_with("**Baseline is partially stale.**"), "{line}");
    let live = advisory_line_for_staleness(Some(&staleness("partial", 4, 1, true)));
    assert_eq!(live.as_deref(), Some(line.as_str()));
}

#[test]
fn the_live_and_saved_advisories_agree() {
    let cases: Vec<(&str, u64, u64, bool)> = vec![
        ("partial", 8, 3, true),
        ("zero-overlap", 8, 0, true),
        ("none", 8, 0, true),
        ("none", 8, 8, false),
        ("some-future-advisory", 8, 2, true),
    ];
    for (warning, entries, matched, gate) in cases {
        let saved = advisory_line(&root(staleness(warning, entries, matched, gate)));
        let live = advisory_line_for_staleness(Some(&staleness(warning, entries, matched, gate)));
        assert_eq!(saved, live, "{warning} {entries} {matched} {gate}");
    }
}

#[test]
fn a_live_run_without_a_baseline_says_nothing() {
    assert!(advisory_line_for_staleness(None).is_none());
}
