use fallow_cli::type_aware::{safe_search_path, sidecar_env_allowed, SearchEntry};
use fallow_cli::type_aware::{binary_names, bounded_text, read_bounded_stream, validate_process_output};

#[test]
fn oversized_response_is_rejected_during_read() {
    let error = read_bounded_stream(vec![b'x'; 65], 64, "response")
        .expect_err("oversized response should fail");
    assert!(error.contains("exceeded the 64-byte limit"));
}

#[test]
fn a_response_at_the_limit_is_accepted_unchanged() {
    assert_eq!(read_bounded_stream(vec![b'x'; 64], 64, "response"), Ok(vec![b'x'; 64]));
}

#[test]
fn process_error_output_is_bounded() {
    let text = bounded_text(&vec![b'x'; 500 + 100], 500);
    assert_eq!(text.chars().count(), 500);
    assert_eq!(bounded_text(b"  err \n", 100), "err");
}

#[test]
fn binary_names_cover_windows_launchers() {
    assert_eq!(binary_names("tsgo", false), vec!["tsgo".to_string()]);
    assert_eq!(
        binary_names("tsgo", true),
        vec!["tsgo".to_string(), "tsgo.exe".to_string(), "tsgo.cmd".to_string(), "tsgo.bat".to_string()]
    );
}

#[test]
fn failed_process_reports_status_and_stderr() {
    assert_eq!(validate_process_output(true, "exit status: 0", b"ignored"), Ok(()));
    let error = validate_process_output(false, "exit status: 2", b" boom \n").unwrap_err();
    assert!(error.contains("exit status: 2"));
    assert!(error.contains("boom"));
}

#[test]
fn the_companion_searches_only_absolute_resolved_directories_outside_the_project_once() {
    let entry = |absolute: bool, canonical: Option<&str>| SearchEntry {
        absolute,
        canonical: canonical.map(str::to_string),
    };
    let entries = vec![
        entry(true, Some("/usr/bin")),
        entry(false, Some("/opt/bin")),
        entry(true, None),
        entry(true, Some("/repo/node_modules/.bin")),
        entry(true, Some("/usr/bin/")),
        entry(true, Some("/bin")),
    ];
    assert_eq!(safe_search_path("/repo", &entries), vec!["/usr/bin".to_string(), "/bin".to_string()]);
    assert!(sidecar_env_allowed("HOME"));
    assert!(sidecar_env_allowed("TMPDIR"));
    assert!(!sidecar_env_allowed("PATH"));
    assert!(!sidecar_env_allowed("NODE_OPTIONS"));
}
