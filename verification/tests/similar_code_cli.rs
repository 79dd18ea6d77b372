use fallow_cli::similar_code_cli::{plan_similar_code_run, SimilarCodeStep, SimilarCodeSubcommand};
use fallow_cli::meta::OutputFormat;
use fallow_cli::similar_code_cli::{
    render_reviewed_candidate, review_summary, SimilarCodeCandidate, SimilarCodeDomainOutcome,
    SimilarCodeReviewedCandidate, SimilarCodeVerdict, SimilarCodeVerdictMatch,
};
use fallow_cli::similar_code_cli::{
    discovery_progress_note, input_size_refusal, inspect_command, inspect_snapshot_source,
    render_cli_argument, render_human_discovery, render_posix_argument, render_powershell_argument,
    similar_code_format_refusal, CacheSummary, DiscoveredCandidate, DiscoveryDiagnostic, Shell,
    SimilarCodeCompletionStatus, SimilarCodeDiscovery, SimilarCodeLocation, SnapshotSource,
};

#[test]
fn inspect_command_requires_the_original_candidate_document() {
    assert_eq!(
        inspect_command("similar-code:candidate:v1:abc", Shell::Posix),
        "fallow similar-code inspect similar-code:candidate:v1:abc --candidates similar-code.json"
    );
}

#[test]
fn inspect_command_quotes_untrusted_candidate_identity() {
    let command = inspect_command("similar-code:candidate:v1:$(touch marker)", Shell::Posix);
    assert!(command.contains("'similar-code:candidate:v1:$(touch marker)'"));
    assert!(!command.contains("--threshold"));
    assert!(!command.contains("--file"));
}

#[test]
fn posix_cli_arguments_prevent_shell_substitution() {
    assert_eq!(render_posix_argument("src/$(touch marker).ts"), "'src/$(touch marker).ts'");
    assert_eq!(render_posix_argument("src/`touch marker`.ts"), "'src/`touch marker`.ts'");
    assert_eq!(render_posix_argument("src/$VAR.ts"), "'src/$VAR.ts'");
    assert_eq!(render_posix_argument("src/\"quoted\".ts"), "'src/\"quoted\".ts'");
    assert_eq!(render_posix_argument("src/it's.ts"), "'src/it'\"'\"'s.ts'");
    assert_eq!(render_posix_argument("src/line\nbreak.ts"), "'src/line\nbreak.ts'");
}

#[test]
fn powershell_cli_arguments_prevent_shell_substitution() {
    assert_eq!(render_powershell_argument("src/$(touch marker).ts"), "'src/$(touch marker).ts'");
    assert_eq!(render_powershell_argument("src/`touch marker`.ts"), "'src/`touch marker`.ts'");
    assert_eq!(render_powershell_argument("src/$VAR.ts"), "'src/$VAR.ts'");
    assert_eq!(render_powershell_argument("src/\"quoted\".ts"), "'src/\"quoted\".ts'");
    assert_eq!(render_powershell_argument("src/it's.ts"), "'src/it''s.ts'");
    assert_eq!(render_powershell_argument("src/line\nbreak.ts"), "'src/line\nbreak.ts'");
}

#[test]
fn plain_arguments_are_left_unquoted_on_both_shells() {
    assert_eq!(render_cli_argument("src/a-b_c.ts:1", Shell::Posix), "src/a-b_c.ts:1");
    assert_eq!(render_cli_argument("src/a-b_c.ts:1", Shell::PowerShell), "src/a-b_c.ts:1");
    assert_eq!(render_cli_argument("", Shell::Posix), "''");
    assert_eq!(render_cli_argument("a b", Shell::PowerShell), "'a b'");
}

fn location(path: &str, line: u32, name: &str) -> SimilarCodeLocation {
    SimilarCodeLocation { path: path.to_string(), name: name.to_string(), start_line: line }
}

#[test]
fn human_discovery_lists_candidates_completion_and_cache() {
    let output = SimilarCodeDiscovery {
        candidates: vec![DiscoveredCandidate {
            candidate_id: "c1".to_string(),
            score: "0.9500".to_string(),
            band: "High".to_string(),
            left: location("src/a.ts", 3, "f"),
            right: location("src/b.ts", 7, "g"),
        }],
        completion: SimilarCodeCompletionStatus::Complete,
        cache: CacheSummary { status: "Hit".to_string(), hits: 2, misses: 0, writes: 1 },
        diagnostics: vec![
            DiscoveryDiagnostic { cache_domain: true, message: "cache is stale".to_string() },
            DiscoveryDiagnostic { cache_domain: false, message: "other".to_string() },
        ],
    };
    assert_eq!(
        render_human_discovery(&output, Shell::Posix),
        [
            "Similar-code candidates (unverified)\n",
            "Model score is cosine similarity, not a probability or refactor verdict.\n",
            "\n",
            "c1  score 0.9500  High\n",
            "  src/a.ts:3  f\n",
            "  src/b.ts:7  g\n",
            "  Inspect: fallow similar-code inspect c1 --candidates similar-code.json\n",
            "\n",
            "Completion: Complete\n",
            "Cache: Hit (2 hits, 0 misses, 1 writes)\n",
            "Cache advisory: cache is stale\n",
        ]
        .concat()
    );
}

#[test]
fn human_discovery_without_candidates_says_why() {
    let output = SimilarCodeDiscovery {
        candidates: vec![],
        completion: SimilarCodeCompletionStatus::Partial,
        cache: CacheSummary { status: "Disabled".to_string(), hits: 0, misses: 0, writes: 0 },
        diagnostics: vec![],
    };
    let text = render_human_discovery(&output, Shell::Posix);
    assert!(text.contains("No candidates were returned, but the run was partial."));
    assert!(text.contains("Completion: Partial (use --format json to inspect skipped work)\n"));
}

#[test]
fn run_level_decisions() {
    assert_eq!(similar_code_format_refusal(OutputFormat::Json), None);
    assert!(similar_code_format_refusal(OutputFormat::Sarif).unwrap().contains("no SARIF or CI gate"));
    assert_eq!(discovery_progress_note(true, false), None);
    assert!(discovery_progress_note(false, true).unwrap().contains("uncached"));
    assert_eq!(inspect_snapshot_source(true, true), Ok(SnapshotSource::CandidatesFile));
    assert_eq!(inspect_snapshot_source(false, true), Ok(SnapshotSource::Stdin));
    assert_eq!(inspect_snapshot_source(false, false), Err("inspect requires --candidates"));
    assert_eq!(input_size_refusal(16 * 1024 * 1024, false), None);
    assert_eq!(
        input_size_refusal(16 * 1024 * 1024 + 1, true),
        Some("similar-code verdict input exceeded the 16 MiB limit")
    );
}

#[test]
fn similar_code_refuses_ci_formats_before_running() {
    match plan_similar_code_run(OutputFormat::Sarif, Some(SimilarCodeSubcommand::Status), false, false) {
        SimilarCodeStep::Refuse(m) => assert!(m.contains("supports only human and json output")),
        _ => panic!("expected a refusal"),
    }
    assert!(matches!(
        plan_similar_code_run(OutputFormat::Json, Some(SimilarCodeSubcommand::Status), false, false),
        SimilarCodeStep::Status
    ));
    assert!(matches!(
        plan_similar_code_run(
            OutputFormat::Human,
            Some(SimilarCodeSubcommand::Setup { local: true, yes: true }),
            false,
            false
        ),
        SimilarCodeStep::Setup { yes: true }
    ));
}

#[test]
fn similar_code_discovery_notes_progress_unless_quiet() {
    match plan_similar_code_run(OutputFormat::Human, None, false, true) {
        SimilarCodeStep::Discover { note: Some(n) } => assert!(n.contains("uncached run")),
        _ => panic!("expected discovery with a note"),
    }
    assert!(matches!(
        plan_similar_code_run(OutputFormat::Json, None, true, false),
        SimilarCodeStep::Discover { note: None }
    ));
}

fn reviewed_candidate(
    verdict: Option<SimilarCodeVerdict>,
    verdict_match: SimilarCodeVerdictMatch,
    outcome: SimilarCodeDomainOutcome,
) -> SimilarCodeReviewedCandidate {
    let location = |path: &str, line: u32, name: &str| SimilarCodeLocation {
        path: path.to_owned(),
        name: name.to_owned(),
        start_line: line,
    };
    SimilarCodeReviewedCandidate {
        candidate: SimilarCodeCandidate {
            left: location("src/left.ts", 12, "normalizeLeft"),
            right: location("src/right.ts", 34, "normalizeRight"),
        },
        verdict,
        verdict_match,
        outcome,
    }
}

#[test]
fn human_review_block_shows_locations_match_axes_outcome_and_rationale() {
    let verdict = SimilarCodeVerdict {
        candidate_worthy: Some(true),
        behaviorally_equivalent: Some(false),
        refactor_safe: Some(false),
        rationale: "Same intent, different edge-case behavior.".to_owned(),
    };
    let reviewed = reviewed_candidate(
        Some(verdict),
        SimilarCodeVerdictMatch::CandidateId,
        SimilarCodeDomainOutcome::RelatedButDistinct,
    );
    let mut output = String::new();
    render_reviewed_candidate(&mut output, &reviewed);

    assert_eq!(
        output,
        "\nsrc/left.ts:12 normalizeLeft\n  <-> src/right.ts:34 normalizeRight\n  Match: candidate-id\n  Candidate worthy: yes\n  Behaviorally equivalent: no\n  Refactor safe: no\n  Outcome: related-but-distinct\n  Rationale: Same intent, different edge-case behavior.\n"
    );
}

#[test]
fn human_review_block_renders_unmatched_judgments_as_unknown() {
    let reviewed = reviewed_candidate(
        None,
        SimilarCodeVerdictMatch::AmbiguousReviewKey,
        SimilarCodeDomainOutcome::NeedsHumanReview,
    );
    let mut output = String::new();
    render_reviewed_candidate(&mut output, &reviewed);

    assert!(output.contains("Match: ambiguous-review-key"));
    assert!(output.contains("Candidate worthy: unknown"));
    assert!(output.contains("Behaviorally equivalent: unknown"));
    assert!(output.contains("Refactor safe: unknown"));
    assert!(output.contains("Outcome: needs-human-review"));
    assert!(output.contains("Rationale: no safely matched verdict"));
}

#[test]
fn review_summary_pluralizes_and_reports_source_completion() {
    assert_eq!(
        review_summary(1, 1, SimilarCodeCompletionStatus::Complete),
        "\nReviewed: 1 candidate, 1 matched verdict, 0 unmatched candidates\nSource completion: complete\n"
    );
    assert_eq!(
        review_summary(2, 1, SimilarCodeCompletionStatus::Partial),
        "\nReviewed: 2 candidates, 1 matched verdict, 1 unmatched candidate\nSource completion: partial\n"
    );
}
