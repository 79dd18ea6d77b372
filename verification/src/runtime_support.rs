//! Analysis selection and the choice of ownership grouping, as the commands
//! that run an analysis decide them before any file is read.
use vstd::prelude::*;
use crate::meta::OutputFormat;
use crate::text::push_str;

verus! {

/// Analysis types for `--only` / `--skip` selection.
#[derive(Debug, Clone, Copy, PartialEq, Eq, Structural)]
pub enum AnalysisKind {
    /// Dead code; also selected as `check`.
    DeadCode,
    Dupes,
    Health,
}

/// Grouping mode for `--group-by`.
#[derive(Debug, Clone, Copy, PartialEq, Eq, Structural)]
pub enum GroupBy {
    /// CODEOWNERS ownership (first owner, last matching rule); also `team`,
    /// `codeowner`.
    Owner,
    /// First directory component of the file path.
    Directory,
    /// Workspace package of a monorepo; also `workspace`, `pkg`.
    Package,
    /// GitLab CODEOWNERS section name; also `gl-section`.
    Section,
}

/// The resolver a grouping mode settles on.
#[derive(Debug, Clone, Copy, PartialEq, Eq, Structural)]
pub enum OwnershipKind {
    Owner,
    Section,
    Directory,
    Package,
}

impl GroupBy {
    /// Whether the mode reads the CODEOWNERS file.
    pub fn needs_codeowners(self) -> (r: bool)
        ensures
            r == (self == GroupBy::Owner || self == GroupBy::Section),
    {
        match self {
            GroupBy::Owner | GroupBy::Section => true,
            _ => false,
        }
    }

    /// Whether the mode needs the workspace packages discovered.
    pub fn needs_workspaces(self) -> (r: bool)
        ensures
            r == (self == GroupBy::Package),
    {
        match self {
            GroupBy::Package => true,
            _ => false,
        }
    }
}

/// The refusal when `--group-by section` meets a CODEOWNERS without sections.
pub open spec fn no_sections_text() -> Seq<char> {
    "--group-by section requires a GitLab-style CODEOWNERS file with `[Section]` headers. This CODEOWNERS has no sections; use --group-by owner instead."@
}

/// The refusal when `--group-by package` finds no workspace packages.
pub open spec fn no_workspaces_text() -> Seq<char> {
    "--group-by package requires a monorepo with workspace packages (package.json workspaces, pnpm-workspace.yaml, or tsconfig references). For single-package projects try --group-by directory instead."@
}

/// What a grouping mode settles on, given what loading CODEOWNERS gave
/// (whether it has sections, or the load error) and how many workspace
/// packages were discovered.
pub open spec fn ownership_outcome(
    mode: GroupBy,
    codeowners: Option<Result<bool, Seq<char>>>,
    workspace_count: nat,
) -> Result<OwnershipKind, Seq<char>> {
    match mode {
        GroupBy::Owner => match codeowners {
            Some(Ok(_)) => Ok(OwnershipKind::Owner),
            Some(Err(e)) => Err(e),
            None => Err(Seq::empty()),
        },
        GroupBy::Section => match codeowners {
            Some(Ok(true)) => Ok(OwnershipKind::Section),
            Some(Ok(false)) => Err(no_sections_text()),
            Some(Err(e)) => Err(e),
            None => Err(Seq::empty()),
        },
        GroupBy::Directory => Ok(OwnershipKind::Directory),
        GroupBy::Package => if workspace_count == 0 {
            Err(no_workspaces_text())
        } else {
            Ok(OwnershipKind::Package)
        },
    }
}

/// Decide the ownership resolver for `--group-by`. `codeowners` is the result
/// of loading CODEOWNERS (whether it has `[Section]` headers, or the load
/// error), which the owner and section modes need; `workspace_count` is the
/// number of workspace packages discovered, which the package mode needs.
/// An error is the message the command reports before exiting with code 2.
pub fn ownership_decision(
    mode: GroupBy,
    codeowners: Option<Result<bool, String>>,
    workspace_count: usize,
) -> (r: Result<OwnershipKind, String>)
    requires
        mode.needs_codeowners_spec() ==> codeowners is Some,
    ensures
        match (r, ownership_outcome(
            mode,
            match codeowners {
                Some(Ok(b)) => Some(Ok(b)),
                Some(Err(e)) => Some(Err(e@)),
                None => None,
            },
            workspace_count as nat,
        )) {
            (Ok(k), Ok(j)) => k == j,
            (Err(e), Err(f)) => e@ == f,
            _ => false,
        },
{
    match mode {
        GroupBy::Owner => match codeowners {
            Some(Ok(_)) => Ok(OwnershipKind::Owner),
            Some(Err(e)) => Err(e),
            None => Err(String::new()),
        },
        GroupBy::Section => match codeowners {
            Some(Ok(true)) => Ok(OwnershipKind::Section),
            Some(Ok(false)) => {
                let mut m = String::new();
                push_str(
                    &mut m,
                    "--group-by section requires a GitLab-style CODEOWNERS file with `[Section]` headers. This CODEOWNERS has no sections; use --group-by owner instead.",
                );
                Err(m)
            },
            Some(Err(e)) => Err(e),
            None => Err(String::new()),
        },
        GroupBy::Directory => Ok(OwnershipKind::Directory),
        GroupBy::Package => {
            if workspace_count == 0 {
                let mut m = String::new();
                push_str(
                    &mut m,
                    "--group-by package requires a monorepo with workspace packages (package.json workspaces, pnpm-workspace.yaml, or tsconfig references). For single-package projects try --group-by directory instead.",
                );
                Err(m)
            } else {
                Ok(OwnershipKind::Package)
            }
        },
    }
}

impl GroupBy {
    pub open spec fn needs_codeowners_spec(self) -> bool {
        self == GroupBy::Owner || self == GroupBy::Section
    }
}

/// Whether the `loaded config: <path>` line goes to stderr: only for human
/// output, and not under `--quiet`, so machine-readable output stays clean.
pub fn config_loaded_visible(output: OutputFormat, quiet: bool) -> (r: bool)
    ensures
        r == (!quiet && output == OutputFormat::Human),
{
    !quiet && match output {
        OutputFormat::Human => true,
        _ => false,
    }
}

/// The list of configuration errors under its heading, each on its own line
/// after `  - `.
pub open spec fn config_errors_text(heading: Seq<char>, errors: Seq<Seq<char>>) -> Seq<char>
    decreases errors.len(),
{
    if errors.len() == 0 {
        heading + ":\n  - "@
    } else if errors.len() == 1 {
        heading + ":\n  - "@ + errors[0]
    } else {
        config_errors_text(heading, errors.drop_last()) + "\n  - "@ + errors.last()
    }
}

/// The message for configuration that failed validation after loading, as
/// `invalid external plugin definition` or `invalid boundary configuration`
/// followed by every offending entry.
pub fn config_errors_message(heading: &str, errors: &Vec<String>) -> (r: String)
    ensures
        r@ == config_errors_text(heading@, errors@.map_values(|e: String| e@)),
{
    let ghost es = errors@.map_values(|e: String| e@);
    let mut r = String::new();
    push_str(&mut r, heading);
    push_str(&mut r, ":\n  - ");
    proof {
        reveal_strlit(":\n  - ");
        reveal_strlit("\n  - ");
    }
    let mut i: usize = 0;
    while i < errors.len()
        invariant
            i <= errors.len(),
            es == errors@.map_values(|e: String| e@),
            i == 0 ==> r@ == heading@ + ":\n  - "@,
            i > 0 ==> r@ == config_errors_text(heading@, es.take(i as int)),
        decreases errors.len() - i,
    {
        proof {
            reveal_strlit(":\n  - ");
            reveal_strlit("\n  - ");
        }
        let ghost prev = r@;
        if i > 0 {
            push_str(&mut r, "\n  - ");
        }
        push_str(&mut r, errors[i].as_str());
        proof {
            let t = es.take(i as int + 1);
            assert(t.drop_last() =~= es.take(i as int));
            assert(t.last() == errors@[i as int]@);
            if i == 0 {
                assert(r@ =~= heading@ + ":\n  - "@ + t[0]);
            } else {
                assert(r@ =~= prev + "\n  - "@ + t.last());
            }
        }
        i = i + 1;
    }
    assert(es.take(errors.len() as int) =~= es);
    r
}

} // verus!
