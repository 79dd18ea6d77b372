use fallow_cli::diff_filter::{choose_diff_base, context_radius, diff_text, empty_diff_warning, resolve_diff_source, DiffSource, DiffStandDown, SummaryScope};
use fallow_cli::summary_order::{merge_summary, partition_project_level, CiIssue};

#[test]
fn a_single_candidate_base_is_named_as_the_project_root() {
    let stand_down = DiffStandDown::ambiguous_base(&vec!["/checkout".to_string()], "/checkout", "--diff-stdin");
    assert!(
        stand_down.message.contains("under the project root, so their base is ambiguous"),
        "{}",
        stand_down.message
    );
    assert!(!stand_down.message.contains("/checkout"));
}

#[test]
fn the_oversize_remedy_asks_only_for_something_the_user_can_do() {
    let stand_down = DiffStandDown::oversize("--diff-file pr.diff", 11, 10);
    assert!(!stand_down.message.contains("raise the cap"), "{}", stand_down.message);
    assert!(stand_down.message.contains("Narrow the diff"));
    assert_eq!(stand_down.reason, "oversize");
}

#[test]
fn diff_stdin_with_an_explicit_path_is_refused() {
    let err = resolve_diff_source(Some("pr.diff"), true, "/repo", None).unwrap_err();
    assert!(err.contains("mutually exclusive"));
    assert!(matches!(resolve_diff_source(Some("-"), true, "/repo", None), Ok(Some(DiffSource::Stdin))));
    assert!(matches!(resolve_diff_source(None, false, "/repo", Some("")), Ok(None)));
}

#[test]
fn relative_diff_paths_resolve_under_the_root() {
    match resolve_diff_source(Some("pr.diff"), false, "/repo", None) {
        Ok(Some(DiffSource::Flag(p))) => assert_eq!(p, "/repo/pr.diff"),
        other => panic!("unexpected {other:?}"),
    }
    match resolve_diff_source(None, false, "/repo", Some("/tmp/x.diff")) {
        Ok(Some(DiffSource::EnvVar(p))) => assert_eq!(p, "/tmp/x.diff"),
        other => panic!("unexpected {other:?}"),
    }
}

#[test]
fn the_best_scoring_base_wins_and_ties_are_ambiguous() {
    assert_eq!(choose_diff_base(&vec![0, 0]), None);
    assert_eq!(choose_diff_base(&vec![1, 3, 2]), Some((1, false)));
    assert_eq!(choose_diff_base(&vec![2, 2]), Some((0, true)));
}

#[test]
fn bounded_diff_reader_accepts_exact_limit() {
    assert_eq!(diff_text(b"abc".to_vec(), "--diff-stdin", 3).ok(), Some("abc".to_string()));
}

#[test]
fn bounded_diff_reader_rejects_limit_plus_one() {
    let stand_down = diff_text(b"abcd".to_vec(), "--diff-stdin", 3).unwrap_err();
    assert_eq!(stand_down.reason, "oversize");
    assert!(stand_down.message.contains("--diff-stdin is 4 bytes (cap 3)"), "{}", stand_down.message);
}

#[test]
fn bounded_diff_reader_rejects_invalid_utf8() {
    let stand_down = diff_text(vec![0xff, 0xfe], "--diff-file pr.diff", 10).unwrap_err();
    assert_eq!(stand_down.reason, "not-utf8");
    assert!(stand_down.message.contains("as UTF-8"), "{}", stand_down.message);
}

#[test]
fn empty_diffs_warn_unless_quiet() {
    assert!(empty_diff_warning("--diff-stdin", 0, false).unwrap().contains("parsed 0 added lines"));
    assert_eq!(empty_diff_warning("--diff-stdin", 0, true), None);
    assert_eq!(empty_diff_warning("--diff-stdin", 2, false), None);
}

#[test]
fn context_radius_defaults_to_three() {
    assert_eq!(context_radius(None), 3);
    assert_eq!(context_radius(Some("10")), 10);
    assert_eq!(context_radius(Some("ten")), 3);
    assert_eq!(context_radius(Some("18446744073709551615")), u64::MAX);
    assert_eq!(context_radius(Some("18446744073709551616")), 3);
}

#[test]
fn summary_scope_parses_safe_defaults() {
    assert_eq!(SummaryScope::from_value("diff"), SummaryScope::Diff);
    assert_eq!(SummaryScope::from_value("all"), SummaryScope::All);
    assert_eq!(SummaryScope::from_value(" all "), SummaryScope::All);
    assert_eq!(SummaryScope::from_value(""), SummaryScope::All);
    assert_eq!(SummaryScope::from_value("typo"), SummaryScope::All);
}

#[test]
fn a_stand_down_names_its_bases_without_the_checkout_path() {
    let root = "/checkout/packages/app";
    let bases = vec!["/checkout".to_string(), root.to_string()];

    let foreign = DiffStandDown::foreign_namespace(1, &bases, root, "--diff-file pr.diff");
    assert_eq!(foreign.reason, "foreign-namespace");
    let ambiguous = DiffStandDown::ambiguous_base(&bases, root, "--diff-file pr.diff");
    assert_eq!(ambiguous.reason, "ambiguous-base");

    for message in [&foreign.message, &ambiguous.message] {
        assert!(!message.contains("/checkout"), "no absolute base reaches the wire: {message}");
        assert!(message.contains("the project root"), "the analysis root is named: {message}");
        assert!(
            message.contains("the repository root (the project root is packages/app below it)"),
            "the toplevel is named with the offset the diff is missing: {message}"
        );
    }
}

fn issue(rule_id: &str, path: &str, line: u64, fingerprint: &str) -> CiIssue {
    CiIssue {
        path: path.to_string(),
        line,
        end_line: None,
        rule_id: rule_id.to_string(),
        description: fingerprint.to_string(),
        severity: "minor".to_string(),
        fingerprint: fingerprint.to_string(),
    }
}

#[test]
fn summary_filter_preserves_path_line_fingerprint_sort_order() {
    let a = issue("fallow/unused-export", "src/a.ts", 1, "a");
    let b = issue("fallow/unused-dependency", "package.json", 5, "b");
    let (project_level, diff_relevant) = partition_project_level(&vec![a, b], &vec![false, true]);
    let kept = merge_summary(&diff_relevant, &project_level);
    assert_eq!(kept[0].fingerprint, "b");
    assert_eq!(kept[1].fingerprint, "a");
}

#[test]
fn summary_order_is_path_then_line_then_fingerprint_and_stable() {
    let issues = vec![
        issue("r", "src/b.ts", 2, "z"),
        issue("r", "src/a.ts", 10, "y"),
        issue("r", "src/a.ts", 9, "x"),
        issue("first", "src/b.ts", 2, "k"),
        issue("second", "src/b.ts", 2, "k"),
    ];
    let sorted = fallow_cli::summary_order::sort_issues(&issues);
    let order: Vec<(&str, u64, &str, &str)> = sorted
        .iter()
        .map(|i| (i.path.as_str(), i.line, i.fingerprint.as_str(), i.rule_id.as_str()))
        .collect();
    assert_eq!(
        order,
        vec![
            ("src/a.ts", 9, "x", "r"),
            ("src/a.ts", 10, "y", "r"),
            ("src/b.ts", 2, "k", "first"),
            ("src/b.ts", 2, "k", "second"),
            ("src/b.ts", 2, "z", "r"),
        ]
    );
}

#[test]
fn project_level_findings_split_off_in_order() {
    let (project, rest) = partition_project_level(
        &vec![
            issue("dep", "package.json", 3, "p1"),
            issue("exp", "src/a.ts", 1, "s1"),
            issue("dep", "package.json", 1, "p2"),
        ],
        &vec![true, false, true],
    );
    assert_eq!(project.iter().map(|i| i.fingerprint.as_str()).collect::<Vec<_>>(), vec!["p1", "p2"]);
    assert_eq!(rest.iter().map(|i| i.fingerprint.as_str()).collect::<Vec<_>>(), vec!["s1"]);
}

#[test]
fn an_empty_diff_file_path_is_inconsistent_input() {
    let err = resolve_diff_source(Some(""), false, "/repo", None).unwrap_err();
    assert!(err.contains("empty path"), "{err}");
    let err = resolve_diff_source(Some(""), false, "/repo", Some("")).unwrap_err();
    assert!(err.contains("empty path"), "{err}");
}

#[test]
fn the_stdin_sentinel_is_compared_as_a_path() {
    assert!(matches!(resolve_diff_source(Some("-/"), false, "/repo", None), Ok(Some(DiffSource::Stdin))));
}
