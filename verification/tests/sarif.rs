use fallow_cli::sarif::{plan_annotation_results, RunRule};
use fallow_cli::sarif::{annotation_end_line, annotation_region, annotation_result, ordered_rule_ids, SarifAnnotation};
use fallow_cli::sarif::{annotation_level, native_rule_id, AnnotationLevel};

#[test]
fn saved_renderer_uses_native_rule_ids_for_non_slug_titles() {
    assert_eq!(native_rule_id("Unused devDependency"), "fallow/unused-dev-dependency");
    assert_eq!(
        native_rule_id("Dynamic segment conflict"),
        "fallow/dynamic-segment-name-conflict"
    );
    assert_eq!(
        native_rule_id("Runtime coverage (safe_to_delete)"),
        "fallow/runtime-safe-to-delete"
    );
    assert_eq!(
        native_rule_id("High cyclomatic complexity (high)"),
        "fallow/high-cyclomatic-complexity"
    );
    assert_eq!(
        native_rule_id("High cognitive complexity (moderate)"),
        "fallow/high-cognitive-complexity"
    );
    assert_eq!(native_rule_id("High CRAP score (critical)"), "fallow/high-crap-score");
}

#[test]
fn native_rule_id_slugs_other_titles() {
    assert_eq!(native_rule_id("Unused export"), "fallow/unused-export");
    assert_eq!(native_rule_id("  Circular Dependency!  "), "fallow/circular-dependency");
    assert_eq!(native_rule_id("!!!"), "fallow/finding");
    assert_eq!(native_rule_id(""), "fallow/finding");
}

#[test]
fn native_rule_id_reads_runtime_and_coverage_intelligence_titles() {
    assert_eq!(
        native_rule_id("Runtime coverage (coverage_unavailable)"),
        "fallow/runtime-coverage-unavailable"
    );
    assert_eq!(native_rule_id("Runtime coverage"), "fallow/runtime-coverage");
    assert_eq!(
        native_rule_id("Coverage intelligence: delete-after-confirming-owner"),
        "fallow/coverage-intelligence-delete"
    );
    assert_eq!(
        native_rule_id("Coverage intelligence"),
        "fallow/coverage-intelligence-review"
    );
    assert_eq!(native_rule_id("Stale @expected-unused"), "fallow/stale-suppression");
}

#[test]
fn annotation_levels_map_to_sarif_levels() {
    assert_eq!(annotation_level(AnnotationLevel::Error), "error");
    assert_eq!(annotation_level(AnnotationLevel::Warning), "warning");
    assert_eq!(annotation_level(AnnotationLevel::Notice), "note");
}

#[test]
fn annotation_regions_are_clamped_to_sarif_limits() {
    assert_eq!(annotation_region(None, Some(4)), None);
    assert_eq!(annotation_region(Some(0), None), Some((1, 1)));
    assert_eq!(annotation_region(Some(12), Some(0)), Some((12, 1)));
    assert_eq!(annotation_region(Some(u64::MAX), Some(7)), Some((u32::MAX, 7)));
    assert_eq!(annotation_end_line(Some(3), Some((12, 1))), Some(12));
    assert_eq!(annotation_end_line(Some(40), Some((12, 1))), Some(40));
    assert_eq!(annotation_end_line(Some(40), None), None);
}

#[test]
fn dead_code_annotations_keep_their_configured_level() {
    let a = SarifAnnotation {
        title: "Unused export".to_string(),
        message: "`helper` is never imported".to_string(),
        level: AnnotationLevel::Warning,
        line: Some(3),
        col: None,
        end_line: Some(5),
    };
    let plan = annotation_result(&a, true, Some("error"));
    assert_eq!(plan.level, "error");
    assert_eq!(plan.message, "Unused export: `helper` is never imported");
    assert_eq!(plan.region, Some((3, 1)));
    assert_eq!(plan.end_line, Some(5));
    assert_eq!(annotation_result(&a, false, Some("error")).level, "warning");
    assert_eq!(annotation_result(&a, true, None).level, "warning");
}

#[test]
fn listed_rules_keep_their_order_and_new_rules_follow_sorted() {
    let s = |v: &[&str]| v.iter().map(|x| x.to_string()).collect::<Vec<_>>();
    assert_eq!(
        ordered_rule_ids(
            &s(&["fallow/unused-file", "fallow/unused-export", "fallow/unused-file"]),
            &s(&["fallow/zeta", "fallow/unused-export", "fallow/alpha", "fallow/zeta"])
        ),
        s(&["fallow/unused-file", "fallow/unused-export", "fallow/alpha", "fallow/zeta"])
    );
}

#[test]
fn stored_sarif_clamps_invalid_regions() {
    assert_eq!(annotation_region(Some(0), Some(0)), Some((1, 1)));
}

fn ann(title: &str, level: AnnotationLevel) -> SarifAnnotation {
    SarifAnnotation {
        title: title.to_string(),
        message: "m".to_string(),
        level,
        line: Some(3),
        col: None,
        end_line: None,
    }
}

#[test]
fn a_dead_code_rule_added_by_an_earlier_annotation_gives_its_level_to_later_ones() {
    let anns = vec![
        ann("Unused export", AnnotationLevel::Error),
        ann("Unused export", AnnotationLevel::Warning),
        ann("Circular dependency", AnnotationLevel::Warning),
        ann("Circular dependency", AnnotationLevel::Notice),
        ann("Unused file", AnnotationLevel::Notice),
    ];
    let rules = vec![RunRule { id: "fallow/unused-file".to_string(), level: Some("warning".to_string()) }];
    let dead = vec!["fallow/unused-export".to_string(), "fallow/unused-file".to_string()];
    let (plans, after) = plan_annotation_results(&anns, rules, &dead);
    let levels = plans.iter().map(|p| p.level.as_str()).collect::<Vec<_>>();
    assert_eq!(levels, vec!["error", "error", "warning", "note", "warning"]);
    assert_eq!(plans[0].message, "Unused export: m");
    assert_eq!(plans[0].region, Some((3, 1)));
    let ids = after.iter().map(|r| (r.id.as_str(), r.level.as_deref())).collect::<Vec<_>>();
    assert_eq!(
        ids,
        vec![
            ("fallow/unused-file", Some("warning")),
            ("fallow/unused-export", Some("error")),
            ("fallow/circular-dependency", Some("warning")),
        ]
    );
}
