//! Which options each `fallow similar-code` target accepts, and which help
//! page a `--help` invocation asks for.
use vstd::prelude::*;
use crate::cli::{Cli, Command};
use crate::similar_code_cli::{SimilarCodeCacheSubcommand, SimilarCodeSubcommand};
use crate::text::{has_prefix, starts_with, str_eq};

verus! {

/// The help page a `similar-code` help request selects.
#[derive(Debug, Clone, Copy, PartialEq, Eq, Structural)]
pub enum SimilarCodeHelpTarget {
    Discovery,
    Status,
    Setup,
    Inspect,
    Review,
    Cache,
    CacheClear,
}

/// The similar-code operation an invocation runs.
#[derive(Debug, Clone, Copy, PartialEq, Eq, Structural)]
pub enum SimilarCodeInvocation {
    Discovery,
    Status,
    Setup,
    Inspect,
    Review,
    CacheClear,
}

/// The operation a parsed subcommand runs, `None` for any other command.
pub open spec fn invocation_of(command: Command) -> Option<SimilarCodeInvocation> {
    match command {
        Command::SimilarCode { subcommand, .. } => Some(
            match subcommand {
                None => SimilarCodeInvocation::Discovery,
                Some(SimilarCodeSubcommand::Status) => SimilarCodeInvocation::Status,
                Some(SimilarCodeSubcommand::Setup { .. }) => SimilarCodeInvocation::Setup,
                Some(SimilarCodeSubcommand::Inspect { .. }) => SimilarCodeInvocation::Inspect,
                Some(SimilarCodeSubcommand::Review { .. }) => SimilarCodeInvocation::Review,
                Some(SimilarCodeSubcommand::Cache { .. }) => SimilarCodeInvocation::CacheClear,
            },
        ),
        Command::Other => None,
    }
}

impl SimilarCodeInvocation {
    pub fn from_command(command: &Command) -> (r: Option<Self>)
        ensures
            r == invocation_of(*command),
    {
        match command {
            Command::SimilarCode { subcommand, .. } => Some(
                match subcommand {
                    None => SimilarCodeInvocation::Discovery,
                    Some(SimilarCodeSubcommand::Status) => SimilarCodeInvocation::Status,
                    Some(SimilarCodeSubcommand::Setup { .. }) => SimilarCodeInvocation::Setup,
                    Some(SimilarCodeSubcommand::Inspect { .. }) => SimilarCodeInvocation::Inspect,
                    Some(SimilarCodeSubcommand::Review { .. }) => SimilarCodeInvocation::Review,
                    Some(SimilarCodeSubcommand::Cache { subcommand: SimilarCodeCacheSubcommand::Clear { .. } }) => SimilarCodeInvocation::CacheClear,
                },
            ),
            Command::Other => None,
        }
    }

    /// Discovery, inspection and cache clearing read the project.
    pub open spec fn project_options(self) -> bool {
        self == SimilarCodeInvocation::Discovery || self == SimilarCodeInvocation::Inspect || self
            == SimilarCodeInvocation::CacheClear
    }

    /// Only discovery runs an analysis.
    pub open spec fn analysis_options(self) -> bool {
        self == SimilarCodeInvocation::Discovery
    }

    /// Discovery, inspection and review write a report.
    pub open spec fn output_file(self) -> bool {
        self == SimilarCodeInvocation::Discovery || self == SimilarCodeInvocation::Inspect || self
            == SimilarCodeInvocation::Review
    }

    pub fn allows_project_options(self) -> (b: bool)
        ensures
            b == self.project_options(),
    {
        self == SimilarCodeInvocation::Discovery || self == SimilarCodeInvocation::Inspect || self
            == SimilarCodeInvocation::CacheClear
    }

    pub fn allows_analysis_options(self) -> (b: bool)
        ensures
            b == self.analysis_options(),
    {
        self == SimilarCodeInvocation::Discovery
    }

    pub fn allows_output_file(self) -> (b: bool)
        ensures
            b == self.output_file(),
    {
        self == SimilarCodeInvocation::Discovery || self == SimilarCodeInvocation::Inspect || self
            == SimilarCodeInvocation::Review
    }
}

/// The flag of the first check that fired, in order.
pub open spec fn first_used(checks: Seq<(bool, Seq<char>)>) -> Option<Seq<char>>
    decreases checks.len(),
{
    if checks.len() == 0 {
        None
    } else if checks[0].0 {
        Some(checks[0].1)
    } else {
        first_used(checks.drop_first())
    }
}

/// The characters of an optional string slice.
pub open spec fn opt_view(o: Option<&str>) -> Option<Seq<char>> {
    match o {
        Some(s) => Some(s@),
        None => None,
    }
}

/// The checks of `(used, flag)` pairs, with each flag as characters.
pub open spec fn check_views(s: Seq<(bool, &str)>) -> Seq<(bool, Seq<char>)> {
    s.map_values(|p: (bool, &str)| (p.0, p.1@))
}

proof fn lemma_first_used_skip(checks: Seq<(bool, Seq<char>)>, i: int)
    requires
        0 <= i <= checks.len(),
        forall|k: int| 0 <= k < i ==> !(#[trigger] checks[k]).0,
    ensures
        first_used(checks) == first_used(checks.skip(i)),
    decreases i,
{
    if i > 0 {
        let t = checks.drop_first();
        assert forall|k: int| 0 <= k < i - 1 implies !(#[trigger] t[k]).0 by {
            assert(t[k] == checks[k + 1]);
        }
        lemma_first_used_skip(t, i - 1);
        assert(t.skip(i - 1) =~= checks.skip(i));
    } else {
        assert(checks.skip(0) =~= checks);
    }
}

/// The flag of the first check in `checks` that fired.
fn first_used_flag(checks: &Vec<(bool, &'static str)>) -> (r: Option<&'static str>)
    ensures
        opt_view(r) == first_used(check_views(checks@)),
{
    let ghost cs = check_views(checks@);
    let mut i: usize = 0;
    while i < checks.len()
        invariant
            cs == check_views(checks@),
            i <= checks@.len(),
            forall|k: int| 0 <= k < i ==> !(#[trigger] cs[k]).0,
        decreases checks@.len() - i,
    {
        if checks[i].0 {
            proof {
                lemma_first_used_skip(cs, i as int);
                assert(cs.skip(i as int)[0] == cs[i as int]);
            }
            return Some(checks[i].1);
        }
        i = i + 1;
    }
    proof {
        lemma_first_used_skip(cs, i as int);
    }
    None
}

/// Part 1 of the analysis-only root options, in the order they are reported.
pub open spec fn universal_checks_0(cli: Cli, explicit_tolerance: bool) -> Seq<(bool, Seq<char>)> {
    seq![
        (cli.churn_file is Some, "--churn-file"@),
        (cli.baseline is Some, "--baseline"@),
        (cli.baseline_mode is Some, "--baseline-mode"@),
        (cli.parent_run is Some, "--parent-run"@),
        (cli.save_baseline is Some, "--save-baseline"@),
        (cli.production, "--production"@),
        (cli.no_production, "--no-production"@),
        (cli.production_dead_code, "--production-dead-code"@),
    ]
}

/// Part 2 of the analysis-only root options, in the order they are reported.
pub open spec fn universal_checks_1(cli: Cli, explicit_tolerance: bool) -> Seq<(bool, Seq<char>)> {
    seq![
        (cli.production_health, "--production-health"@),
        (cli.production_dupes, "--production-dupes"@),
        (cli.group_by is Some, "--group-by"@),
        (cli.performance, "--performance"@),
        (cli.explain_skipped, "--explain-skipped"@),
        (cli.summary, "--summary"@),
        (cli.ci, "--ci"@),
        (cli.fail_on_issues, "--fail-on-issues"@),
    ]
}

/// Part 3 of the analysis-only root options, in the order they are reported.
pub open spec fn universal_checks_2(cli: Cli, explicit_tolerance: bool) -> Seq<(bool, Seq<char>)> {
    seq![
        (cli.sarif_file is Some, "--sarif-file"@),
        (cli.report_path_prefix is Some, "--report-path-prefix"@),
        (cli.fail_on_regression, "--fail-on-regression"@),
        ((cli.tolerance@ != "0"@ || explicit_tolerance), "--tolerance"@),
        (cli.regression_baseline is Some, "--regression-baseline"@),
        (cli.save_regression_baseline is Some, "--save-regression-baseline"@),
        (cli.dupes_mode is Some, "--dupes-mode"@),
        (cli.dupes_near, "--dupes-near"@),
    ]
}

/// Part 4 of the analysis-only root options, in the order they are reported.
pub open spec fn universal_checks_3(cli: Cli, explicit_tolerance: bool) -> Seq<(bool, Seq<char>)> {
    seq![
        (cli.dupes_threshold is Some, "--dupes-threshold"@),
        (cli.dupes_min_tokens is Some, "--dupes-min-tokens"@),
        (cli.dupes_min_lines is Some, "--dupes-min-lines"@),
        (cli.dupes_min_occurrences is Some, "--dupes-min-occurrences"@),
        (cli.dupes_skip_local, "--dupes-skip-local"@),
        (cli.dupes_cross_language, "--dupes-cross-language"@),
        (cli.dupes_ignore_imports, "--dupes-ignore-imports"@),
        (cli.dupes_no_ignore_imports, "--dupes-no-ignore-imports"@),
    ]
}

/// Part 5 of the analysis-only root options, in the order they are reported.
pub open spec fn universal_checks_4(cli: Cli, explicit_tolerance: bool) -> Seq<(bool, Seq<char>)> {
    seq![
        (cli.only@.len() != 0, "--only"@),
        (cli.skip@.len() != 0, "--skip"@),
        (cli.score, "--score"@),
        (cli.trend, "--trend"@),
        (cli.save_snapshot is Some, "--save-snapshot"@),
        (cli.coverage is Some, "--coverage"@),
        (cli.coverage_root is Some, "--coverage-root"@),
        (cli.include_entry_exports, "--include-entry-exports"@),
    ]
}

/// Part 6 of the analysis-only root options, in the order they are reported.
pub open spec fn universal_checks_5(cli: Cli, explicit_tolerance: bool) -> Seq<(bool, Seq<char>)> {
    seq![
        (cli.type_aware, "--type-aware"@),
        (cli.no_type_aware, "--no-type-aware"@),
        (cli.type_aware_project@.len() != 0, "--type-aware-project"@),
        (cli.type_aware_require is Some, "--type-aware-require"@),
    ]
}

/// The analysis-only root options, in the order they are reported.
pub open spec fn universal_checks(cli: Cli, explicit_tolerance: bool) -> Seq<(bool, Seq<char>)> {
    universal_checks_0(cli, explicit_tolerance) + (universal_checks_1(cli, explicit_tolerance) + (universal_checks_2(cli, explicit_tolerance) + (universal_checks_3(cli, explicit_tolerance) + (universal_checks_4(cli, explicit_tolerance) + (universal_checks_5(cli, explicit_tolerance))))))
}


/// The first root option a similar-code target never accepts, in order.
pub fn unsupported_universal_analysis_option(cli: &Cli, explicit_tolerance: bool) -> (r: Option<
    &'static str,
>)
    ensures
        opt_view(r) == first_used(universal_checks(*cli, explicit_tolerance)),
{
    proof {
        lemma_first_used_concat(universal_checks_0(*cli, explicit_tolerance), universal_checks_1(*cli, explicit_tolerance) + (universal_checks_2(*cli, explicit_tolerance) + (universal_checks_3(*cli, explicit_tolerance) + (universal_checks_4(*cli, explicit_tolerance) + (universal_checks_5(*cli, explicit_tolerance))))));
    }
    if let Some(flag) = universal_part_0(cli, explicit_tolerance) {
        return Some(flag);
    }
    proof {
        lemma_first_used_concat(universal_checks_1(*cli, explicit_tolerance), universal_checks_2(*cli, explicit_tolerance) + (universal_checks_3(*cli, explicit_tolerance) + (universal_checks_4(*cli, explicit_tolerance) + (universal_checks_5(*cli, explicit_tolerance)))));
    }
    if let Some(flag) = universal_part_1(cli, explicit_tolerance) {
        return Some(flag);
    }
    proof {
        lemma_first_used_concat(universal_checks_2(*cli, explicit_tolerance), universal_checks_3(*cli, explicit_tolerance) + (universal_checks_4(*cli, explicit_tolerance) + (universal_checks_5(*cli, explicit_tolerance))));
    }
    if let Some(flag) = universal_part_2(cli, explicit_tolerance) {
        return Some(flag);
    }
    proof {
        lemma_first_used_concat(universal_checks_3(*cli, explicit_tolerance), universal_checks_4(*cli, explicit_tolerance) + (universal_checks_5(*cli, explicit_tolerance)));
    }
    if let Some(flag) = universal_part_3(cli, explicit_tolerance) {
        return Some(flag);
    }
    proof {
        lemma_first_used_concat(universal_checks_4(*cli, explicit_tolerance), universal_checks_5(*cli, explicit_tolerance));
    }
    if let Some(flag) = universal_part_4(cli, explicit_tolerance) {
        return Some(flag);
    }
    universal_part_5(cli, explicit_tolerance)
}

fn universal_part_0(cli: &Cli, explicit_tolerance: bool) -> (r: Option<&'static str>)
    ensures
        opt_view(r) == first_used(universal_checks_0(*cli, explicit_tolerance)),
{
    let checks = vec![
        (cli.churn_file.is_some(), "--churn-file"),
        (cli.baseline.is_some(), "--baseline"),
        (cli.baseline_mode.is_some(), "--baseline-mode"),
        (cli.parent_run.is_some(), "--parent-run"),
        (cli.save_baseline.is_some(), "--save-baseline"),
        (cli.production, "--production"),
        (cli.no_production, "--no-production"),
        (cli.production_dead_code, "--production-dead-code"),
    ];
    assert(check_views(checks@) =~= universal_checks_0(*cli, explicit_tolerance));
    first_used_flag(&checks)
}

fn universal_part_1(cli: &Cli, explicit_tolerance: bool) -> (r: Option<&'static str>)
    ensures
        opt_view(r) == first_used(universal_checks_1(*cli, explicit_tolerance)),
{
    let checks = vec![
        (cli.production_health, "--production-health"),
        (cli.production_dupes, "--production-dupes"),
        (cli.group_by.is_some(), "--group-by"),
        (cli.performance, "--performance"),
        (cli.explain_skipped, "--explain-skipped"),
        (cli.summary, "--summary"),
        (cli.ci, "--ci"),
        (cli.fail_on_issues, "--fail-on-issues"),
    ];
    assert(check_views(checks@) =~= universal_checks_1(*cli, explicit_tolerance));
    first_used_flag(&checks)
}

fn universal_part_2(cli: &Cli, explicit_tolerance: bool) -> (r: Option<&'static str>)
    ensures
        opt_view(r) == first_used(universal_checks_2(*cli, explicit_tolerance)),
{
    let checks = vec![
        (cli.sarif_file.is_some(), "--sarif-file"),
        (cli.report_path_prefix.is_some(), "--report-path-prefix"),
        (cli.fail_on_regression, "--fail-on-regression"),
        ((!str_eq(cli.tolerance.as_str(), "0") || explicit_tolerance), "--tolerance"),
        (cli.regression_baseline.is_some(), "--regression-baseline"),
        (cli.save_regression_baseline.is_some(), "--save-regression-baseline"),
        (cli.dupes_mode.is_some(), "--dupes-mode"),
        (cli.dupes_near, "--dupes-near"),
    ];
    assert(check_views(checks@) =~= universal_checks_2(*cli, explicit_tolerance));
    first_used_flag(&checks)
}

fn universal_part_3(cli: &Cli, explicit_tolerance: bool) -> (r: Option<&'static str>)
    ensures
        opt_view(r) == first_used(universal_checks_3(*cli, explicit_tolerance)),
{
    let checks = vec![
        (cli.dupes_threshold.is_some(), "--dupes-threshold"),
        (cli.dupes_min_tokens.is_some(), "--dupes-min-tokens"),
        (cli.dupes_min_lines.is_some(), "--dupes-min-lines"),
        (cli.dupes_min_occurrences.is_some(), "--dupes-min-occurrences"),
        (cli.dupes_skip_local, "--dupes-skip-local"),
        (cli.dupes_cross_language, "--dupes-cross-language"),
        (cli.dupes_ignore_imports, "--dupes-ignore-imports"),
        (cli.dupes_no_ignore_imports, "--dupes-no-ignore-imports"),
    ];
    assert(check_views(checks@) =~= universal_checks_3(*cli, explicit_tolerance));
    first_used_flag(&checks)
}

fn universal_part_4(cli: &Cli, explicit_tolerance: bool) -> (r: Option<&'static str>)
    ensures
        opt_view(r) == first_used(universal_checks_4(*cli, explicit_tolerance)),
{
    let checks = vec![
        (cli.only.len() != 0, "--only"),
        (cli.skip.len() != 0, "--skip"),
        (cli.score, "--score"),
        (cli.trend, "--trend"),
        (cli.save_snapshot.is_some(), "--save-snapshot"),
        (cli.coverage.is_some(), "--coverage"),
        (cli.coverage_root.is_some(), "--coverage-root"),
        (cli.include_entry_exports, "--include-entry-exports"),
    ];
    assert(check_views(checks@) =~= universal_checks_4(*cli, explicit_tolerance));
    first_used_flag(&checks)
}

fn universal_part_5(cli: &Cli, explicit_tolerance: bool) -> (r: Option<&'static str>)
    ensures
        opt_view(r) == first_used(universal_checks_5(*cli, explicit_tolerance)),
{
    let checks = vec![
        (cli.type_aware, "--type-aware"),
        (cli.no_type_aware, "--no-type-aware"),
        (cli.type_aware_project.len() != 0, "--type-aware-project"),
        (cli.type_aware_require.is_some(), "--type-aware-require"),
    ];
    assert(check_views(checks@) =~= universal_checks_5(*cli, explicit_tolerance));
    first_used_flag(&checks)
}


/// Part 1 of the target-specific root options, in the order they are reported.
pub open spec fn target_checks_0(cli: Cli, inv: SimilarCodeInvocation) -> Seq<(bool, Seq<char>)> {
    seq![
        (cli.root is Some && !inv.project_options(), "--root"@),
        (cli.config is Some && !inv.project_options(), "--config"@),
        (cli.allow_remote_extends && !inv.project_options(), "--allow-remote-extends"@),
        (cli.no_cache && !inv.analysis_options(), "--no-cache"@),
        (cli.threads is Some && !inv.analysis_options(), "--threads"@),
        (cli.changed_since is Some && !inv.analysis_options(), "--changed-since"@),
        (cli.diff_file is Some && !inv.analysis_options(), "--diff-file"@),
    ]
}

/// Part 2 of the target-specific root options, in the order they are reported.
pub open spec fn target_checks_1(cli: Cli, inv: SimilarCodeInvocation) -> Seq<(bool, Seq<char>)> {
    seq![
        (cli.diff_stdin && !inv.analysis_options(), "--diff-stdin"@),
        (cli.max_file_size is Some && !inv.analysis_options(), "--max-file-size"@),
        (cli.workspace is Some && !inv.analysis_options(), "--workspace"@),
        (cli.changed_workspaces is Some && !inv.analysis_options(), "--changed-workspaces"@),
        (cli.explain && !inv.analysis_options(), "--explain"@),
        (cli.output_file is Some && !inv.output_file(), "--output-file"@),
    ]
}

/// The target-specific root options, in the order they are reported.
pub open spec fn target_checks(cli: Cli, inv: SimilarCodeInvocation) -> Seq<(bool, Seq<char>)> {
    target_checks_0(cli, inv) + target_checks_1(cli, inv)
}

/// The similar-code options only discovery accepts, in order.
pub open spec fn discovery_checks(command: Command, inv: SimilarCodeInvocation) -> Seq<(bool, Seq<char>)> {
    match command {
        Command::SimilarCode { threshold, min_lines, top, file, .. } => seq![
            (threshold is Some && !inv.analysis_options(), "--threshold"@),
            (min_lines is Some && !inv.analysis_options(), "--min-lines"@),
            (top is Some && !inv.analysis_options(), "--top"@),
            (file@.len() != 0 && !inv.analysis_options(), "--file"@),
        ],
        Command::Other => Seq::empty(),
    }
}

/// The first option the selected similar-code target does not accept, or
/// `None` when every given option is accepted or the command is not
/// similar-code.
pub open spec fn unsupported_option(cli: Cli, explicit_tolerance: bool) -> Option<Seq<char>> {
    match cli.command {
        Some(command) => match invocation_of(command) {
            Some(inv) => first_used(
                target_checks(cli, inv) + (universal_checks(cli, explicit_tolerance)
                    + discovery_checks(command, inv)),
            ),
            None => None,
        },
        None => None,
    }
}

proof fn lemma_first_used_concat(a: Seq<(bool, Seq<char>)>, b: Seq<(bool, Seq<char>)>)
    ensures
        first_used(a + b) == (if first_used(a) is Some { first_used(a) } else { first_used(b) }),
    decreases a.len(),
{
    if a.len() > 0 {
        lemma_first_used_concat(a.drop_first(), b);
        assert((a + b).drop_first() =~= a.drop_first() + b);
    } else {
        assert(a + b =~= b);
    }
}

fn target_part_0(cli: &Cli, inv: SimilarCodeInvocation) -> (r: Option<&'static str>)
    ensures
        opt_view(r) == first_used(target_checks_0(*cli, inv)),
{
    let project = inv.allows_project_options();
    let analysis = inv.allows_analysis_options();
    let output = inv.allows_output_file();
    let checks = vec![
        (cli.root.is_some() && !project, "--root"),
        (cli.config.is_some() && !project, "--config"),
        (cli.allow_remote_extends && !project, "--allow-remote-extends"),
        (cli.no_cache && !analysis, "--no-cache"),
        (cli.threads.is_some() && !analysis, "--threads"),
        (cli.changed_since.is_some() && !analysis, "--changed-since"),
        (cli.diff_file.is_some() && !analysis, "--diff-file"),
    ];
    assert(check_views(checks@) =~= target_checks_0(*cli, inv));
    first_used_flag(&checks)
}

fn target_part_1(cli: &Cli, inv: SimilarCodeInvocation) -> (r: Option<&'static str>)
    ensures
        opt_view(r) == first_used(target_checks_1(*cli, inv)),
{
    let project = inv.allows_project_options();
    let analysis = inv.allows_analysis_options();
    let output = inv.allows_output_file();
    let checks = vec![
        (cli.diff_stdin && !analysis, "--diff-stdin"),
        (cli.max_file_size.is_some() && !analysis, "--max-file-size"),
        (cli.workspace.is_some() && !analysis, "--workspace"),
        (cli.changed_workspaces.is_some() && !analysis, "--changed-workspaces"),
        (cli.explain && !analysis, "--explain"),
        (cli.output_file.is_some() && !output, "--output-file"),
    ];
    assert(check_views(checks@) =~= target_checks_1(*cli, inv));
    first_used_flag(&checks)
}

/// The first option the selected similar-code target does not accept. Output
/// options (`--format`, `--pretty`, `--quiet`) are valid for every target.
/// `explicit_tolerance` says whether `--tolerance` appeared on the command
/// line at all, since its parsed value cannot tell `--tolerance 0` from none.
pub fn unsupported_similar_code_option_with_explicit_tolerance(
    cli: &Cli,
    explicit_tolerance: bool,
) -> (r: Option<&'static str>)
    ensures
        opt_view(r) == unsupported_option(*cli, explicit_tolerance),
{
    let command = match &cli.command {
        Some(command) => command,
        None => return None,
    };
    let invocation = match SimilarCodeInvocation::from_command(command) {
        Some(invocation) => invocation,
        None => return None,
    };
    let analysis = invocation.allows_analysis_options();
    let first = match target_part_0(cli, invocation) {
        Some(flag) => Some(flag),
        None => target_part_1(cli, invocation),
    };
    proof {
        lemma_first_used_concat(target_checks_0(*cli, invocation), target_checks_1(*cli, invocation));
    }
    if let Some(flag) = first {
        proof {
            lemma_first_used_concat(target_checks(*cli, invocation), universal_checks(*cli, explicit_tolerance) + discovery_checks(*command, invocation));
        }
        return Some(flag);
    }
    if let Some(flag) = unsupported_universal_analysis_option(cli, explicit_tolerance) {
        proof {
            lemma_first_used_concat(target_checks(*cli, invocation), universal_checks(*cli, explicit_tolerance) + discovery_checks(*command, invocation));
            lemma_first_used_concat(universal_checks(*cli, explicit_tolerance), discovery_checks(*command, invocation));
        }
        return Some(flag);
    }
    proof {
        lemma_first_used_concat(target_checks(*cli, invocation), universal_checks(*cli, explicit_tolerance) + discovery_checks(*command, invocation));
        lemma_first_used_concat(universal_checks(*cli, explicit_tolerance), discovery_checks(*command, invocation));
    }
    match command {
        Command::SimilarCode { threshold, min_lines, top, file, .. } => {
            let tail = vec![
                (threshold.is_some() && !analysis, "--threshold"),
                (min_lines.is_some() && !analysis, "--min-lines"),
                (top.is_some() && !analysis, "--top"),
                (file.len() != 0 && !analysis, "--file"),
            ];
            assert(check_views(tail@) =~= discovery_checks(*command, invocation));
            first_used_flag(&tail)
        },
        Command::Other => None,
    }
}

/// The first option the selected similar-code target does not accept, judged
/// against the raw arguments `args` the process was started with.
pub fn unsupported_similar_code_option(cli: &Cli, args: &Vec<String>) -> (r: Option<&'static str>)
    ensures
        opt_view(r) == unsupported_option(*cli, long_option_given(arg_views(args@), "tolerance"@)),
{
    let explicit = args_contain_long_option(args, "tolerance");
    unsupported_similar_code_option_with_explicit_tolerance(cli, explicit)
}

/// The characters of each argument.
pub open spec fn arg_views(args: Seq<String>) -> Seq<Seq<char>> {
    args.map_values(|a: String| a@)
}

/// Whether some argument is `--<long>` or starts with `--<long>=`.
pub open spec fn long_option_given(args: Seq<Seq<char>>, long: Seq<char>) -> bool {
    exists|i: int| 0 <= i < args.len() && (#[trigger] args[i] == "--"@ + long || has_prefix(args[i], "--"@ + long + "="@))
}

/// Whether some argument is `--<long>` or starts with `--<long>=`.
pub fn args_contain_long_option(args: &Vec<String>, long: &str) -> (r: bool)
    ensures
        r == long_option_given(arg_views(args@), long@),
{
    let mut exact = String::new();
    crate::text::push_str(&mut exact, "--");
    crate::text::push_str(&mut exact, long);
    let mut prefix = String::new();
    crate::text::push_str(&mut prefix, exact.as_str());
    crate::text::push_str(&mut prefix, "=");
    let ghost views = arg_views(args@);
    let mut i: usize = 0;
    while i < args.len()
        invariant
            views == arg_views(args@),
            exact@ == "--"@ + long@,
            prefix@ == "--"@ + long@ + "="@,
            i <= args@.len(),
            forall|k: int| 0 <= k < i ==> !(views[k] == "--"@ + long@ || has_prefix(views[k], "--"@ + long@ + "="@)),
        decreases args@.len() - i,
    {
        let arg = args[i].as_str();
        if str_eq(arg, exact.as_str()) || starts_with(arg, prefix.as_str()) {
            assert(views[i as int] == args@[i as int]@);
            return true;
        }
        i = i + 1;
    }
    false
}

/// Options whose value is the next argument (unless written `--opt=value`).
pub open spec fn consumes_next(arg: Seq<char>) -> bool {
    !arg.contains('=') && (
        arg == "-r"@ ||
        arg == "--root"@ ||
        arg == "-c"@ ||
        arg == "--config"@ ||
        arg == "-f"@ ||
        arg == "--format"@ ||
        arg == "--output"@ ||
        arg == "--threads"@ ||
        arg == "--changed-since"@ ||
        arg == "--base"@ ||
        arg == "--diff-file"@ ||
        arg == "--churn-file"@ ||
        arg == "--max-file-size"@ ||
        arg == "--baseline"@ ||
        arg == "--baseline-mode"@ ||
        arg == "--parent-run"@ ||
        arg == "--save-baseline"@ ||
        arg == "-w"@ ||
        arg == "--workspace"@ ||
        arg == "--changed-workspaces"@ ||
        arg == "--group-by"@ ||
        arg == "--sarif-file"@ ||
        arg == "-o"@ ||
        arg == "--output-file"@ ||
        arg == "--report-path-prefix"@ ||
        arg == "--annotations-path-prefix"@ ||
        arg == "--tolerance"@ ||
        arg == "--regression-baseline"@ ||
        arg == "--save-regression-baseline"@ ||
        arg == "--only"@ ||
        arg == "--skip"@ ||
        arg == "--dupes-mode"@ ||
        arg == "--dupes-threshold"@ ||
        arg == "--dupes-min-tokens"@ ||
        arg == "--dupes-min-lines"@ ||
        arg == "--dupes-min-occurrences"@ ||
        arg == "--save-snapshot"@ ||
        arg == "--coverage"@ ||
        arg == "--coverage-root"@ ||
        arg == "--type-aware-project"@ ||
        arg == "--type-aware-require"@ ||
        arg == "--threshold"@ ||
        arg == "--min-lines"@ ||
        arg == "--top"@ ||
        arg == "--file"@ ||
        arg == "--candidates"@ ||
        arg == "--verdicts"@
    )
}

/// Whether `arg` is an option that takes the following argument as its value.
pub fn option_consumes_next(arg: &str) -> (r: bool)
    ensures
        r == consumes_next(arg@),
{
    if crate::text::contains(arg, "=") {
        proof {
            reveal_strlit("=");
            let i = choose|i: int| crate::text::occurs_at(arg@, "="@, i);
            assert(arg@.subrange(i, i + 1)[0] == arg@[i]);
        }
        return false;
    }
    proof {
        reveal_strlit("=");
        if arg@.contains('=') {
            let i = choose|i: int| 0 <= i < arg@.len() && arg@[i] == '=';
            assert(arg@.subrange(i, i + 1) =~= "="@);
            assert(crate::text::occurs_at(arg@, "="@, i));
        }
    }
    str_eq(arg, "-r") ||
        str_eq(arg, "--root") ||
        str_eq(arg, "-c") ||
        str_eq(arg, "--config") ||
        str_eq(arg, "-f") ||
        str_eq(arg, "--format") ||
        str_eq(arg, "--output") ||
        str_eq(arg, "--threads") ||
        str_eq(arg, "--changed-since") ||
        str_eq(arg, "--base") ||
        str_eq(arg, "--diff-file") ||
        str_eq(arg, "--churn-file") ||
        str_eq(arg, "--max-file-size") ||
        str_eq(arg, "--baseline") ||
        str_eq(arg, "--baseline-mode") ||
        str_eq(arg, "--parent-run") ||
        str_eq(arg, "--save-baseline") ||
        str_eq(arg, "-w") ||
        str_eq(arg, "--workspace") ||
        str_eq(arg, "--changed-workspaces") ||
        str_eq(arg, "--group-by") ||
        str_eq(arg, "--sarif-file") ||
        str_eq(arg, "-o") ||
        str_eq(arg, "--output-file") ||
        str_eq(arg, "--report-path-prefix") ||
        str_eq(arg, "--annotations-path-prefix") ||
        str_eq(arg, "--tolerance") ||
        str_eq(arg, "--regression-baseline") ||
        str_eq(arg, "--save-regression-baseline") ||
        str_eq(arg, "--only") ||
        str_eq(arg, "--skip") ||
        str_eq(arg, "--dupes-mode") ||
        str_eq(arg, "--dupes-threshold") ||
        str_eq(arg, "--dupes-min-tokens") ||
        str_eq(arg, "--dupes-min-lines") ||
        str_eq(arg, "--dupes-min-occurrences") ||
        str_eq(arg, "--save-snapshot") ||
        str_eq(arg, "--coverage") ||
        str_eq(arg, "--coverage-root") ||
        str_eq(arg, "--type-aware-project") ||
        str_eq(arg, "--type-aware-require") ||
        str_eq(arg, "--threshold") ||
        str_eq(arg, "--min-lines") ||
        str_eq(arg, "--top") ||
        str_eq(arg, "--file") ||
        str_eq(arg, "--candidates") ||
        str_eq(arg, "--verdicts")
}

/// The positions of the command words in `args` from `i` on: arguments that
/// are neither options nor the value of an option that consumes one.
pub open spec fn token_scan(args: Seq<Seq<char>>, i: int, skip: bool) -> Seq<int>
    decreases args.len() - i,
{
    if i >= args.len() || i < 0 {
        Seq::empty()
    } else if skip {
        token_scan(args, i + 1, false)
    } else if consumes_next(args[i]) {
        token_scan(args, i + 1, true)
    } else if args[i].len() > 0 && args[i][0] == '-' {
        token_scan(args, i + 1, false)
    } else {
        seq![i] + token_scan(args, i + 1, false)
    }
}

/// The positions of the command words in `args` from `start` on.
pub fn command_tokens(args: &Vec<String>, start: usize) -> (r: Vec<usize>)
    ensures
        r@.map_values(|k: usize| k as int) == token_scan(arg_views(args@), start as int, false),
{
    let ghost views = arg_views(args@);
    let mut tokens: Vec<usize> = Vec::new();
    let mut skip = false;
    let mut i = start;
    while i < args.len()
        invariant
            views == arg_views(args@),
            start <= i || i >= args@.len(),
            tokens@.map_values(|k: usize| k as int) + token_scan(views, i as int, skip) == token_scan(views, start as int, false),
        decreases args@.len() - i,
    {
        let arg = args[i].as_str();
        assert(views[i as int] == arg@);
        let ghost before = tokens@.map_values(|k: usize| k as int);
        if skip {
            skip = false;
        } else if option_consumes_next(arg) {
            skip = true;
        } else if arg.unicode_len() > 0 && arg.get_char(0) == '-' {
        } else {
            tokens.push(i);
            assert(tokens@.map_values(|k: usize| k as int) =~= before.push(i as int));
            assert(before + token_scan(views, i as int, false) =~= before.push(i as int) + token_scan(views, i as int + 1, false));
        }
        i = i + 1;
    }
    assert(token_scan(views, i as int, skip) =~= Seq::<int>::empty());
    assert(tokens@.map_values(|k: usize| k as int) + Seq::<int>::empty() =~= tokens@.map_values(|k: usize| k as int));
    tokens
}

/// The help page a command-word path selects: the first subcommand word
/// decides, and `cache` with a later `clear` selects the clear page.
pub open spec fn target_of(path: Seq<Seq<char>>) -> SimilarCodeHelpTarget
    decreases path.len(),
{
    if path.len() == 0 {
        SimilarCodeHelpTarget::Discovery
    } else if path[0] == "status"@ {
        SimilarCodeHelpTarget::Status
    } else if path[0] == "setup"@ {
        SimilarCodeHelpTarget::Setup
    } else if path[0] == "inspect"@ {
        SimilarCodeHelpTarget::Inspect
    } else if path[0] == "review"@ {
        SimilarCodeHelpTarget::Review
    } else if path[0] == "cache"@ {
        if path.drop_first().contains("clear"@) {
            SimilarCodeHelpTarget::CacheClear
        } else {
            SimilarCodeHelpTarget::Cache
        }
    } else {
        target_of(path.drop_first())
    }
}

/// The arguments at the given positions.
pub open spec fn args_at(args: Seq<Seq<char>>, idx: Seq<int>) -> Seq<Seq<char>> {
    idx.map_values(|k: int| args[k])
}

/// The help page the command words of `args` at positions `idx[from..]` select.
pub fn target_from_tokens(args: &Vec<String>, idx: &Vec<usize>, from: usize) -> (r: SimilarCodeHelpTarget)
    requires
        from <= idx.len(),
        forall|k: int| 0 <= k < idx@.len() ==> idx@[k] < args@.len(),
    ensures
        r == target_of(args_at(arg_views(args@), idx@.map_values(|k: usize| k as int)).skip(from as int)),
{
    proof {
        reveal_strlit("status");
        reveal_strlit("setup");
        reveal_strlit("inspect");
        reveal_strlit("review");
        reveal_strlit("cache");
    }
    let ghost path = args_at(arg_views(args@), idx@.map_values(|k: usize| k as int));
    let mut i = from;
    while i < idx.len()
        invariant
            path == args_at(arg_views(args@), idx@.map_values(|k: usize| k as int)),
            from <= i <= idx@.len(),
            path.len() == idx@.len(),
            forall|k: int| 0 <= k < idx@.len() ==> idx@[k] < args@.len(),
            target_of(path.skip(i as int)) == target_of(path.skip(from as int)),
        decreases idx@.len() - i,
    {
        let arg = args[idx[i]].as_str();
        let ghost rest = path.skip(i as int);
        assert(rest[0] == arg@);
        assert(rest.drop_first() =~= path.skip(i as int + 1));
        if str_eq(arg, "status") {
            return SimilarCodeHelpTarget::Status;
        } else if str_eq(arg, "setup") {
            return SimilarCodeHelpTarget::Setup;
        } else if str_eq(arg, "inspect") {
            return SimilarCodeHelpTarget::Inspect;
        } else if str_eq(arg, "review") {
            return SimilarCodeHelpTarget::Review;
        } else if str_eq(arg, "cache") {
            let mut j = i + 1;
            while j < idx.len()
                invariant
                    path == args_at(arg_views(args@), idx@.map_values(|k: usize| k as int)),
                    rest == path.skip(i as int),
                    rest.len() > 0,
                    rest[0] == "cache"@,
                    from <= i,
                    target_of(path.skip(i as int)) == target_of(path.skip(from as int)),
                    i < j <= idx@.len(),
                    path.len() == idx@.len(),
                    forall|k: int| 0 <= k < idx@.len() ==> idx@[k] < args@.len(),
                    forall|k: int| i < k < j ==> path[k] != "clear"@,
                decreases idx@.len() - j,
            {
                if str_eq(args[idx[j]].as_str(), "clear") {
                    assert(path[j as int] == arg_views(args@)[idx@[j as int] as int]);
                    assert(path.skip(i as int + 1)[j - i - 1] == path[j as int]);
                    assert(rest.drop_first() =~= path.skip(i as int + 1));
                    assert(rest.drop_first()[j - i - 1] == "clear"@);
                    assert(rest.drop_first().contains("clear"@));
                    proof {
                        reveal_strlit("status");
                        reveal_strlit("setup");
                        reveal_strlit("inspect");
                        reveal_strlit("review");
                        reveal_strlit("cache");
                    }
                    assert("cache"@[0] == 'c' && "status"@[0] == 's' && "setup"@[0] == 's' && "inspect"@[0] == 'i' && "review"@[0] == 'r');
                    assert(rest[0] != "status"@ && rest[0] != "setup"@ && rest[0] != "inspect"@ && rest[0] != "review"@);
                    assert(target_of(rest) == SimilarCodeHelpTarget::CacheClear);
                    return SimilarCodeHelpTarget::CacheClear;
                }
                j = j + 1;
            }
            assert forall|k: int| 0 <= k < rest.drop_first().len() implies rest.drop_first()[k] != "clear"@ by {
                assert(rest.drop_first()[k] == path[i + 1 + k]);
            }
            return SimilarCodeHelpTarget::Cache;
        }
        i = i + 1;
    }
    assert(path.skip(i as int) =~= Seq::<Seq<char>>::empty());
    SimilarCodeHelpTarget::Discovery
}

/// Whether some argument after position `from` is `--help` or `-h`.
pub open spec fn asks_for_help_after(args: Seq<Seq<char>>, from: int) -> bool {
    exists|i: int| from < i < args.len() && (#[trigger] args[i] == "--help"@ || args[i] == "-h"@)
}

/// The first token whose argument is `similar-code`.
pub open spec fn similar_code_token(args: Seq<Seq<char>>, toks: Seq<int>) -> Option<int> {
    if exists|t: int| 0 <= t < toks.len() && args[toks[t]] == "similar-code"@ {
        Some(choose|t: int| 0 <= t < toks.len() && args[toks[t]] == "similar-code"@ && forall|u: int| 0 <= u < t ==> args[toks[u]] != "similar-code"@)
    } else {
        None
    }
}

/// The help page a `similar-code` help request selects, or `None` when the
/// arguments ask for no similar-code help at all. `help similar-code ...`
/// selects by the words after it; otherwise the words after the
/// `similar-code` command word select, provided `--help` or `-h` follows it.
pub open spec fn help_target(args: Seq<Seq<char>>) -> Option<SimilarCodeHelpTarget> {
    if args.len() > 0 && args[0] == "help"@ {
        if args.len() > 1 && args[1] == "similar-code"@ {
            Some(target_of(args_at(args, token_scan(args, 2, false))))
        } else {
            None
        }
    } else {
        let toks = token_scan(args, 0, false);
        match similar_code_token(args, toks) {
            Some(t) => if asks_for_help_after(args, toks[t]) {
                Some(target_of(args_at(args, toks).skip(t + 1)))
            } else {
                None
            },
            None => None,
        }
    }
}

proof fn lemma_token_scan_bounds(args: Seq<Seq<char>>, i: int, skip: bool)
    requires
        0 <= i,
    ensures
        forall|k: int| 0 <= k < token_scan(args, i, skip).len() ==> i <= #[trigger] token_scan(args, i, skip)[k] < args.len(),
    decreases args.len() - i,
{
    if i < args.len() {
        lemma_token_scan_bounds(args, i + 1, false);
        lemma_token_scan_bounds(args, i + 1, true);
        let r = token_scan(args, i + 1, false);
        let q = token_scan(args, i + 1, true);
        let t = token_scan(args, i, skip);
        assert forall|k: int| 0 <= k < t.len() implies i <= #[trigger] t[k] < args.len() by {
            if skip {
                assert(t == r);
                assert(t[k] == r[k]);
            } else if consumes_next(args[i]) {
                assert(t == q);
                assert(t[k] == q[k]);
            } else if args[i].len() > 0 && args[i][0] == '-' {
                assert(t == r);
                assert(t[k] == r[k]);
            } else {
                assert(t == seq![i] + r);
                if k > 0 {
                    assert(t[k] == r[k - 1]);
                }
            }
        }
    }
}

/// The help page a `similar-code` help request selects.
pub fn similar_code_help_target(args: &Vec<String>) -> (r: Option<SimilarCodeHelpTarget>)
    ensures
        r == help_target(arg_views(args@)),
{
    let ghost views = arg_views(args@);
    if args.len() > 0 && str_eq(args[0].as_str(), "help") {
        assert(views[0] == args@[0]@);
        if args.len() < 2 || !str_eq(args[1].as_str(), "similar-code") {
            return None;
        }
        assert(views[1] == args@[1]@);
        let toks = command_tokens(args, 2);
        proof {
            lemma_token_scan_bounds(views, 2, false);
            assert forall|k: int| 0 <= k < toks@.len() implies toks@[k] < args@.len() by {
                assert(toks@.map_values(|k: usize| k as int)[k] == toks@[k] as int);
            }
            assert(args_at(views, toks@.map_values(|k: usize| k as int)).skip(0) =~= args_at(views, toks@.map_values(|k: usize| k as int)));
        }
        return Some(target_from_tokens(args, &toks, 0));
    }
    proof {
        if args@.len() > 0 {
            assert(views[0] == args@[0]@);
        }
    }
    let toks = command_tokens(args, 0);
    let ghost tv = toks@.map_values(|k: usize| k as int);
    proof {
        lemma_token_scan_bounds(views, 0, false);
        assert forall|k: int| 0 <= k < toks@.len() implies toks@[k] < args@.len() by {
            assert(tv[k] == toks@[k] as int);
        }
    }
    let mut t: usize = 0;
    while t < toks.len() && !str_eq(args[toks[t]].as_str(), "similar-code")
        invariant
            views == arg_views(args@),
            tv == toks@.map_values(|k: usize| k as int),
            t <= toks@.len(),
            forall|k: int| 0 <= k < toks@.len() ==> toks@[k] < args@.len(),
            forall|u: int| 0 <= u < t ==> views[tv[u]] != "similar-code"@,
        decreases toks@.len() - t,
    {
        assert(views[tv[t as int]] == args@[toks@[t as int] as int]@);
        t = t + 1;
    }
    if t == toks.len() {
        proof {
            assert(!exists|w: int| 0 <= w < tv.len() && views[tv[w]] == "similar-code"@);
        }
        return None;
    }
    assert(views[tv[t as int]] == args@[toks@[t as int] as int]@);
    assert(views[tv[t as int]] == "similar-code"@);
    proof {
        let c = similar_code_token(views, tv);
        assert(c is Some);
        let w = choose|w: int| 0 <= w < tv.len() && views[tv[w]] == "similar-code"@ && forall|u: int| 0 <= u < w ==> views[tv[u]] != "similar-code"@;
        if w < t {
        } else if w > t {
            assert(views[tv[t as int]] != "similar-code"@);
        }
        assert(w == t);
    }
    let at = toks[t];
    let mut h = at + 1;
    while h < args.len() && !(str_eq(args[h].as_str(), "--help") || str_eq(args[h].as_str(), "-h"))
        invariant
            views == arg_views(args@),
            at < args@.len(),
            at + 1 <= h <= args@.len(),
            forall|i: int| at < i < h ==> !(views[i] == "--help"@ || views[i] == "-h"@),
        decreases args@.len() - h,
    {
        assert(views[h as int] == args@[h as int]@);
        h = h + 1;
    }
    if h == args.len() {
        return None;
    }
    proof {
        assert(views[h as int] == args@[h as int]@);
    }
    Some(target_from_tokens(args, &toks, t + 1))
}

/// The help text of each target.
pub open spec fn help_text(target: SimilarCodeHelpTarget) -> Seq<char> {
    match target {
        SimilarCodeHelpTarget::Discovery => DISCOVERY_HELP@,
        SimilarCodeHelpTarget::Status => STATUS_HELP@,
        SimilarCodeHelpTarget::Setup => SETUP_HELP@,
        SimilarCodeHelpTarget::Inspect => INSPECT_HELP@,
        SimilarCodeHelpTarget::Review => REVIEW_HELP@,
        SimilarCodeHelpTarget::Cache => CACHE_HELP@,
        SimilarCodeHelpTarget::CacheClear => CACHE_CLEAR_HELP@,
    }
}

/// The help page of `target`.
pub fn render_similar_code_help(target: SimilarCodeHelpTarget) -> (r: &'static str)
    ensures
        r@ == help_text(target),
{
    match target {
        SimilarCodeHelpTarget::Discovery => DISCOVERY_HELP,
        SimilarCodeHelpTarget::Status => STATUS_HELP,
        SimilarCodeHelpTarget::Setup => SETUP_HELP,
        SimilarCodeHelpTarget::Inspect => INSPECT_HELP,
        SimilarCodeHelpTarget::Review => REVIEW_HELP,
        SimilarCodeHelpTarget::Cache => CACHE_HELP,
        SimilarCodeHelpTarget::CacheClear => CACHE_CLEAR_HELP,
    }
}

pub const DISCOVERY_HELP: &'static str = "\
Find semantically similar functions with a pinned local model (opt-in).

Usage: fallow similar-code [OPTIONS] [COMMAND]

Commands:
  status   Show exact companion and pinned-model readiness
  setup    Download and verify the pinned local model
  inspect  Reproduce and inspect one unverified candidate
  review   Join candidate JSON with a separate verdict document
  cache    Manage the user-local, project-namespaced vector cache
  help     Print this message or the help of a command

Options:
  -r, --root <ROOT>                       Project root directory
  -c, --config <CONFIG>                   Path to config file
      --allow-remote-extends              Allow trusted config files to extend HTTPS URLs
  -f, --format <FORMAT>                   Output format: human or json [default: human]
      --pretty                            Indent JSON output
  -q, --quiet                             Suppress progress and cold-run guidance
      --no-cache                          Disable incremental vector caching
      --threads <THREADS>                 Number of parser threads
      --changed-since <REF>               Report pairs touching files changed since this git ref
      --diff-file <PATH>                  Unified diff for line-level scoping
      --diff-stdin                        Read the unified diff from stdin
  -w, --workspace <WORKSPACE>             Scope output to selected workspaces
      --changed-workspaces <REF>          Scope output to workspaces touched since this git ref
      --max-file-size <MB>                Skip source files larger than this many megabytes
      --explain                           Include metric and model interpretation metadata
      --threshold <0..1>                  Minimum cosine similarity retained
      --min-lines <N>                     Minimum source lines per extracted function
      --top <N>                           Cap displayed candidates after comparison
      --file <PATH>                       Report pairs touching these project-relative files
  -o, --output-file <PATH>                Write the report to a file instead of stdout
  -h, --help                              Print help
";

pub const STATUS_HELP: &'static str = "\
Show exact companion and pinned-model readiness without reading project source.

Usage: fallow similar-code status [OPTIONS]

Options:
  -f, --format <FORMAT>  Output format: human or json [default: human]
      --pretty           Indent JSON output
  -q, --quiet            Suppress progress output
  -h, --help             Print help
";

pub const SETUP_HELP: &'static str = "\
Download and verify the pinned local model after explicit confirmation.

Usage: fallow similar-code setup --local [OPTIONS]

Options:
      --local            Confirm setup for the first-party pinned local model
      --yes              Confirm non-interactively
  -f, --format <FORMAT>  Output format: human or json [default: human]
      --pretty           Indent JSON output
  -q, --quiet            Suppress progress output
  -h, --help             Print help
";

pub const INSPECT_HELP: &'static str = "\
Reproduce and inspect one unverified candidate with bounded source evidence.

Usage: fallow similar-code [OPTIONS] inspect <CANDIDATE_ID> --candidates <PATH>

Arguments:
  <CANDIDATE_ID>  Snapshot-stable candidate identity from fallow similar-code

Options:
  -r, --root <ROOT>                       Project root directory
  -c, --config <CONFIG>                   Path to config file
      --allow-remote-extends              Allow trusted config files to extend HTTPS URLs
      --candidates <PATH>                 Raw discovery JSON containing this candidate
  -f, --format <FORMAT>                   Output format: human or json [default: human]
      --pretty                            Indent JSON output
  -q, --quiet                             Suppress progress output
  -o, --output-file <PATH>                Write the report to a file instead of stdout
  -h, --help                              Print help
";

pub const REVIEW_HELP: &'static str = "\
Join candidate JSON with a separate human or agent verdict document.

Usage: fallow similar-code review --candidates <PATH> --verdicts <PATH> [OPTIONS]

Options:
      --candidates <PATH>                     Raw fallow similar-code JSON document
      --verdicts <PATH>                       Versioned verdict JSON document
      --require-verdict-for-each-candidate    Fail unless every candidate has a safe verdict match
  -f, --format <FORMAT>                       Output format: human or json [default: human]
      --pretty                                Indent JSON output
  -q, --quiet                                 Suppress progress output
  -o, --output-file <PATH>                    Write the report to a file instead of stdout
  -h, --help                                  Print help
";

pub const CACHE_HELP: &'static str = "\
Manage the user-local, project-namespaced vector cache. Model artifacts are unaffected.

Usage: fallow similar-code cache <COMMAND>

Commands:
  clear  Remove cached vectors after explicit confirmation
  help   Print this message or the help of a command

Options:
  -h, --help  Print help
";

pub const CACHE_CLEAR_HELP: &'static str = "\
Remove cached vectors after explicit confirmation.

Usage: fallow similar-code cache clear --yes [OPTIONS]

Options:
  -r, --root <ROOT>          Project root directory
  -c, --config <CONFIG>      Path to config file
      --allow-remote-extends Allow trusted config files to extend HTTPS URLs
      --yes                  Confirm deletion of derived vectors
  -f, --format <FORMAT>      Output format: human or json [default: human]
      --pretty               Indent JSON output
  -q, --quiet                Suppress progress output
  -h, --help                 Print help
";


} // verus!
