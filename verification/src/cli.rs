//! The root command-line options, as plain values: which options a run was
//! given and with what text.
use vstd::prelude::*;
use crate::similar_code_cli::SimilarCodeSubcommand;

verus! {

/// The subcommand a run selected.
pub enum Command {
    /// `fallow similar-code`, with its own options.
    SimilarCode {
        threshold: Option<String>,
        min_lines: Option<String>,
        top: Option<String>,
        file: Vec<String>,
        subcommand: Option<SimilarCodeSubcommand>,
    },
    /// Any other subcommand.
    Other,
}

/// The root options of one invocation. A valued option holds the text it was
/// given, a flag whether it was passed.
pub struct Cli {
    pub command: Option<Command>,
    pub workspace: Option<Vec<String>>,
    pub tolerance: String,
    pub root: Option<String>,
    pub config: Option<String>,
    pub threads: Option<String>,
    pub changed_since: Option<String>,
    pub diff_file: Option<String>,
    pub max_file_size: Option<String>,
    pub changed_workspaces: Option<String>,
    pub output_file: Option<String>,
    pub churn_file: Option<String>,
    pub baseline: Option<String>,
    pub baseline_mode: Option<String>,
    pub parent_run: Option<String>,
    pub save_baseline: Option<String>,
    pub group_by: Option<String>,
    pub sarif_file: Option<String>,
    pub report_path_prefix: Option<String>,
    pub regression_baseline: Option<String>,
    pub save_regression_baseline: Option<String>,
    pub dupes_mode: Option<String>,
    pub dupes_threshold: Option<String>,
    pub dupes_min_tokens: Option<String>,
    pub dupes_min_lines: Option<String>,
    pub dupes_min_occurrences: Option<String>,
    pub save_snapshot: Option<String>,
    pub coverage: Option<String>,
    pub coverage_root: Option<String>,
    pub type_aware_require: Option<String>,
    pub allow_remote_extends: bool,
    pub no_cache: bool,
    pub diff_stdin: bool,
    pub explain: bool,
    pub production: bool,
    pub no_production: bool,
    pub production_dead_code: bool,
    pub production_health: bool,
    pub production_dupes: bool,
    pub performance: bool,
    pub explain_skipped: bool,
    pub summary: bool,
    pub ci: bool,
    pub fail_on_issues: bool,
    pub fail_on_regression: bool,
    pub dupes_near: bool,
    pub dupes_skip_local: bool,
    pub dupes_cross_language: bool,
    pub dupes_ignore_imports: bool,
    pub dupes_no_ignore_imports: bool,
    pub score: bool,
    pub trend: bool,
    pub include_entry_exports: bool,
    pub type_aware: bool,
    pub no_type_aware: bool,
    pub only: Vec<String>,
    pub skip: Vec<String>,
    pub type_aware_project: Vec<String>,
}

impl Cli {
    /// An invocation that passed no option and selected no subcommand; the
    /// tolerance holds its default, `0`.
    pub fn new() -> (c: Cli)
        ensures
            c.command is None,
            c.workspace is None,
            c.tolerance@ == "0"@,
            c.root is None,
            c.config is None,
            c.threads is None,
            c.changed_since is None,
            c.diff_file is None,
            c.max_file_size is None,
            c.changed_workspaces is None,
            c.output_file is None,
            c.churn_file is None,
            c.baseline is None,
            c.baseline_mode is None,
            c.parent_run is None,
            c.save_baseline is None,
            c.group_by is None,
            c.sarif_file is None,
            c.report_path_prefix is None,
            c.regression_baseline is None,
            c.save_regression_baseline is None,
            c.dupes_mode is None,
            c.dupes_threshold is None,
            c.dupes_min_tokens is None,
            c.dupes_min_lines is None,
            c.dupes_min_occurrences is None,
            c.save_snapshot is None,
            c.coverage is None,
            c.coverage_root is None,
            c.type_aware_require is None,
            !c.allow_remote_extends,
            !c.no_cache,
            !c.diff_stdin,
            !c.explain,
            !c.production,
            !c.no_production,
            !c.production_dead_code,
            !c.production_health,
            !c.production_dupes,
            !c.performance,
            !c.explain_skipped,
            !c.summary,
            !c.ci,
            !c.fail_on_issues,
            !c.fail_on_regression,
            !c.dupes_near,
            !c.dupes_skip_local,
            !c.dupes_cross_language,
            !c.dupes_ignore_imports,
            !c.dupes_no_ignore_imports,
            !c.score,
            !c.trend,
            !c.include_entry_exports,
            !c.type_aware,
            !c.no_type_aware,
            c.only@.len() == 0,
            c.skip@.len() == 0,
            c.type_aware_project@.len() == 0,
    {
        Cli {
            command: None,
            workspace: None,
            tolerance: String::from_str("0"),
            root: None,
            config: None,
            threads: None,
            changed_since: None,
            diff_file: None,
            max_file_size: None,
            changed_workspaces: None,
            output_file: None,
            churn_file: None,
            baseline: None,
            baseline_mode: None,
            parent_run: None,
            save_baseline: None,
            group_by: None,
            sarif_file: None,
            report_path_prefix: None,
            regression_baseline: None,
            save_regression_baseline: None,
            dupes_mode: None,
            dupes_threshold: None,
            dupes_min_tokens: None,
            dupes_min_lines: None,
            dupes_min_occurrences: None,
            save_snapshot: None,
            coverage: None,
            coverage_root: None,
            type_aware_require: None,
            allow_remote_extends: false,
            no_cache: false,
            diff_stdin: false,
            explain: false,
            production: false,
            no_production: false,
            production_dead_code: false,
            production_health: false,
            production_dupes: false,
            performance: false,
            explain_skipped: false,
            summary: false,
            ci: false,
            fail_on_issues: false,
            fail_on_regression: false,
            dupes_near: false,
            dupes_skip_local: false,
            dupes_cross_language: false,
            dupes_ignore_imports: false,
            dupes_no_ignore_imports: false,
            score: false,
            trend: false,
            include_entry_exports: false,
            type_aware: false,
            no_type_aware: false,
            only: Vec::new(),
            skip: Vec::new(),
            type_aware_project: Vec::new(),
        }
    }
}

} // verus!
