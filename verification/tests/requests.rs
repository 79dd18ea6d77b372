use fallow_cli::requests::{changed_file_set, changed_since_scope_size, empty_paths, measure_changed_since_scope, RequestStatus};

#[test]
fn only_changed_files_the_run_analyzed_count() {
    let (changed, forms) = changed_file_set(&vec!["src/a.ts".to_string(), "README.md".to_string()]);
    assert_eq!(forms, vec!["src/a.ts".to_string(), "README.md".to_string()]);
    let mut union = empty_paths();
    measure_changed_since_scope(&changed, &vec!["src/a.ts".to_string(), "src/b.ts".to_string()], &mut union);
    assert_eq!(changed_since_scope_size(RequestStatus::Applied, Some(&union)), Some(1));
    measure_changed_since_scope(&changed, &vec!["src/a.ts".to_string()], &mut union);
    assert_eq!(changed_since_scope_size(RequestStatus::Applied, Some(&union)), Some(1));
}

#[test]
fn a_readme_only_change_narrows_to_nothing() {
    let (changed, _) = changed_file_set(&vec!["README.md".to_string()]);
    let mut union = empty_paths();
    measure_changed_since_scope(&changed, &vec!["src/a.ts".to_string()], &mut union);
    assert_eq!(changed_since_scope_size(RequestStatus::Applied, Some(&union)), Some(0));
    assert_eq!(changed_since_scope_size(RequestStatus::NotApplied, Some(&union)), None);
    assert_eq!(changed_since_scope_size(RequestStatus::Applied, None), None);
}

#[test]
fn the_scope_does_not_depend_on_which_analysis_measures_first() {
    let (changed, _) =
        changed_file_set(&vec!["src/a.ts".to_string(), "test/a.test.ts".to_string()]);
    let dead_code = vec!["src/a.ts".to_string()];
    let health = vec!["src/a.ts".to_string(), "test/a.test.ts".to_string()];
    let mut one = empty_paths();
    measure_changed_since_scope(&changed, &dead_code, &mut one);
    measure_changed_since_scope(&changed, &health, &mut one);
    let mut two = empty_paths();
    measure_changed_since_scope(&changed, &health, &mut two);
    measure_changed_since_scope(&changed, &dead_code, &mut two);
    assert_eq!(one, two);
    assert_eq!(changed_since_scope_size(RequestStatus::Applied, Some(&one)), Some(2));
}
