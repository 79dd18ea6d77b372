use fallow_cli::cli::{Cli, Command};
use fallow_cli::similar_code_cli::{SimilarCodeCacheSubcommand, SimilarCodeSubcommand};
use fallow_cli::similar_code_help::{
    args_contain_long_option, render_similar_code_help, similar_code_help_target,
    unsupported_similar_code_option, unsupported_similar_code_option_with_explicit_tolerance,
    SimilarCodeHelpTarget,
};

fn argv(items: &[&str]) -> Vec<String> {
    items.iter().map(|s| (*s).to_string()).collect()
}

fn similar_code(subcommand: Option<SimilarCodeSubcommand>) -> Command {
    Command::SimilarCode { threshold: None, min_lines: None, top: None, file: Vec::new(), subcommand }
}

fn review() -> SimilarCodeSubcommand {
    SimilarCodeSubcommand::Review {
        candidates: "c.json".to_string(),
        verdicts: "v.json".to_string(),
        require_verdict_for_each_candidate: false,
    }
}

#[test]
fn every_help_surface_has_a_closed_format_set() {
    for target in [
        SimilarCodeHelpTarget::Discovery,
        SimilarCodeHelpTarget::Status,
        SimilarCodeHelpTarget::Setup,
        SimilarCodeHelpTarget::Inspect,
        SimilarCodeHelpTarget::Review,
        SimilarCodeHelpTarget::CacheClear,
    ] {
        let help = render_similar_code_help(target);
        assert!(help.contains("human or json"));
        for unsupported in ["sarif", "codeclimate", "markdown", "--ci", "--baseline", "--dupes"] {
            assert!(!help.contains(unsupported), "unexpected {unsupported} in:\n{help}");
        }
    }
}

#[test]
fn accepts_each_targets_explicit_option_set() {
    // fallow similar-code --root . --config fallow.toml --no-cache --threads 2
    //   --changed-since main --workspace app --threshold 0.8 --min-lines 3 --top 10
    //   --file src/a.ts --format json --quiet --output-file out.json
    let mut discovery = Cli::new();
    discovery.root = Some(".".to_string());
    discovery.config = Some("fallow.toml".to_string());
    discovery.no_cache = true;
    discovery.threads = Some("2".to_string());
    discovery.changed_since = Some("main".to_string());
    discovery.workspace = Some(vec!["app".to_string()]);
    discovery.output_file = Some("out.json".to_string());
    discovery.command = Some(Command::SimilarCode {
        threshold: Some("0.8".to_string()),
        min_lines: Some("3".to_string()),
        top: Some("10".to_string()),
        file: vec!["src/a.ts".to_string()],
        subcommand: None,
    });
    let discovery_argv = argv(&[
        "fallow", "similar-code", "--root", ".", "--config", "fallow.toml", "--no-cache",
        "--threads", "2", "--changed-since", "main", "--workspace", "app", "--threshold", "0.8",
        "--min-lines", "3", "--top", "10", "--file", "src/a.ts", "--format", "json", "--quiet",
        "--output-file", "out.json",
    ]);

    // fallow similar-code --root . inspect candidate-id --candidates candidates.json
    let mut inspect = Cli::new();
    inspect.root = Some(".".to_string());
    inspect.command = Some(similar_code(Some(SimilarCodeSubcommand::Inspect {
        candidate_id: "candidate-id".to_string(),
        candidates: Some("candidates.json".to_string()),
        candidate_snapshot_stdin: false,
    })));
    let inspect_argv = argv(&[
        "fallow", "similar-code", "--root", ".", "inspect", "candidate-id", "--candidates",
        "candidates.json",
    ]);

    // fallow similar-code review --candidates c.json --verdicts v.json --output-file review.txt
    let mut reviewed = Cli::new();
    reviewed.output_file = Some("review.txt".to_string());
    reviewed.command = Some(similar_code(Some(review())));
    let review_argv = argv(&[
        "fallow", "similar-code", "review", "--candidates", "c.json", "--verdicts", "v.json",
        "--output-file", "review.txt",
    ]);

    // fallow similar-code status --format json
    let mut status = Cli::new();
    status.command = Some(similar_code(Some(SimilarCodeSubcommand::Status)));
    let status_argv = argv(&["fallow", "similar-code", "status", "--format", "json"]);

    // fallow similar-code setup --local --yes
    let mut setup = Cli::new();
    setup.command = Some(similar_code(Some(SimilarCodeSubcommand::Setup { local: true, yes: true })));
    let setup_argv = argv(&["fallow", "similar-code", "setup", "--local", "--yes"]);

    // fallow similar-code --root . cache clear --yes
    let mut cache = Cli::new();
    cache.root = Some(".".to_string());
    cache.command = Some(similar_code(Some(SimilarCodeSubcommand::Cache {
        subcommand: SimilarCodeCacheSubcommand::Clear { yes: true },
    })));
    let cache_argv = argv(&["fallow", "similar-code", "--root", ".", "cache", "clear", "--yes"]);

    for (cli, args) in [
        (discovery, discovery_argv),
        (inspect, inspect_argv),
        (reviewed, review_argv),
        (status, status_argv),
        (setup, setup_argv),
        (cache, cache_argv),
    ] {
        assert_eq!(unsupported_similar_code_option(&cli, &args), None);
    }
}

#[test]
fn rejects_irrelevant_analysis_options_for_each_target() {
    let mut near = Cli::new();
    near.dupes_near = true;
    near.command = Some(similar_code(Some(review())));

    let mut baseline = Cli::new();
    baseline.baseline = Some("base.json".to_string());
    baseline.command = Some(similar_code(Some(review())));

    let mut status_root = Cli::new();
    status_root.root = Some(".".to_string());
    status_root.command = Some(similar_code(Some(SimilarCodeSubcommand::Status)));

    let mut setup_cache = Cli::new();
    setup_cache.no_cache = true;
    setup_cache.command = Some(similar_code(Some(SimilarCodeSubcommand::Setup { local: true, yes: false })));

    let mut clear_threads = Cli::new();
    clear_threads.threads = Some("2".to_string());
    clear_threads.command = Some(similar_code(Some(SimilarCodeSubcommand::Cache {
        subcommand: SimilarCodeCacheSubcommand::Clear { yes: true },
    })));

    let mut score = Cli::new();
    score.score = true;
    score.command = Some(similar_code(Some(SimilarCodeSubcommand::Status)));

    let mut tolerance = Cli::new();
    tolerance.command = Some(similar_code(Some(review())));
    let tolerance_argv = argv(&[
        "fallow", "similar-code", "review", "--candidates", "c.json", "--verdicts", "v.json",
        "--tolerance", "0",
    ]);

    for (cli, explicit, expected) in [
        (near, false, "--dupes-near"),
        (baseline, false, "--baseline"),
        (status_root, false, "--root"),
        (setup_cache, false, "--no-cache"),
        (clear_threads, false, "--threads"),
        (score, false, "--score"),
        (tolerance, args_contain_long_option(&tolerance_argv, "tolerance"), "--tolerance"),
    ] {
        assert_eq!(
            unsupported_similar_code_option_with_explicit_tolerance(&cli, explicit),
            Some(expected)
        );
    }
}

#[test]
fn detects_parent_and_nested_help_forms() {
    assert_eq!(
        similar_code_help_target(&argv(&["similar-code", "--help"])),
        Some(SimilarCodeHelpTarget::Discovery)
    );
    assert_eq!(
        similar_code_help_target(&argv(&["help", "similar-code", "review"])),
        Some(SimilarCodeHelpTarget::Review)
    );
    assert_eq!(
        similar_code_help_target(&argv(&["similar-code", "cache", "clear", "-h"])),
        Some(SimilarCodeHelpTarget::CacheClear)
    );
    assert_eq!(similar_code_help_target(&argv(&["security", "--help"])), None);
    assert_eq!(
        similar_code_help_target(&argv(&["similar-code", "--file", "status", "--help"])),
        Some(SimilarCodeHelpTarget::Discovery)
    );
    assert_eq!(
        similar_code_help_target(&argv(&["--config", "similar-code", "security", "--help"])),
        None
    );
    assert_eq!(similar_code_help_target(&argv(&["--help", "similar-code"])), None);
}

#[test]
fn long_option_detection_accepts_the_inline_value_form() {
    assert!(args_contain_long_option(&argv(&["fallow", "--tolerance=0"]), "tolerance"));
    assert!(!args_contain_long_option(&argv(&["fallow", "--tolerances"]), "tolerance"));
}
