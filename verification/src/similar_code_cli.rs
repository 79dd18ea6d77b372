//! The similar-code subcommands, and the text the CLI renders around them:
//! shell-safe copy-paste commands and the human review block.
use vstd::prelude::*;
use crate::meta::OutputFormat;
use crate::text::{decimal, is_ascii_alnum, ascii_alnum, chars_of, push_decimal, push_str, replace_char, replace_char_str};

verus! {

/// `fallow similar-code <subcommand>`.
pub enum SimilarCodeSubcommand {
    /// Show exact companion and pinned-model readiness.
    Status,
    /// Download and verify the pinned local model.
    Setup { local: bool, yes: bool },
    /// Reproduce and inspect one unverified candidate.
    Inspect { candidate_id: String, candidates: Option<String>, candidate_snapshot_stdin: bool },
    /// Join candidate JSON with a separate verdict document.
    Review { candidates: String, verdicts: String, require_verdict_for_each_candidate: bool },
    /// Manage the project-namespaced vector cache.
    Cache { subcommand: SimilarCodeCacheSubcommand },
}

/// `fallow similar-code cache <subcommand>`.
pub enum SimilarCodeCacheSubcommand {
    /// Remove cached vectors after explicit confirmation.
    Clear { yes: bool },
}

/// The shell a copy-paste command is rendered for.
#[derive(Debug, Clone, Copy, PartialEq, Eq, Structural)]
pub enum Shell {
    Posix,
    PowerShell,
}

/// Characters that never need quoting on either shell.
pub open spec fn is_plain_char(c: char) -> bool {
    is_ascii_alnum(c) || c == '_' || c == '.' || c == '/' || c == ':' || c == '-'
}

/// A non-empty argument made only of plain characters. (On bytes this is the
/// same test: a non-ASCII character encodes to bytes that are none of these.)
pub open spec fn is_plain_argument(s: Seq<char>) -> bool {
    s.len() > 0 && forall|i: int| 0 <= i < s.len() ==> is_plain_char(#[trigger] s[i])
}

/// A POSIX single-quoted argument: every `'` becomes `'"'"'`.
pub open spec fn posix_quoted(s: Seq<char>) -> Seq<char> {
    seq!['\''] + replace_char(s, '\'', "'\"'\"'"@) + seq!['\'']
}

/// A PowerShell single-quoted argument: every `'` is doubled.
pub open spec fn powershell_quoted(s: Seq<char>) -> Seq<char> {
    seq!['\''] + replace_char(s, '\'', "''"@) + seq!['\'']
}

/// An argument as it must be typed on `shell`.
pub open spec fn cli_argument(s: Seq<char>, shell: Shell) -> Seq<char> {
    if is_plain_argument(s) {
        s
    } else if shell == Shell::PowerShell {
        powershell_quoted(s)
    } else {
        posix_quoted(s)
    }
}

/// Quote `argument` for a POSIX shell so no substitution can happen.
pub fn render_posix_argument(argument: &str) -> (r: String)
    ensures
        r@ == posix_quoted(argument@),
{
    let mut r = String::new();
    r.push('\'');
    let inner = replace_char_str(argument, '\'', "'\"'\"'");
    push_str(&mut r, inner.as_str());
    r.push('\'');
    assert(r@ =~= posix_quoted(argument@));
    r
}

/// Quote `argument` for PowerShell so no substitution can happen.
pub fn render_powershell_argument(argument: &str) -> (r: String)
    ensures
        r@ == powershell_quoted(argument@),
{
    let mut r = String::new();
    r.push('\'');
    let inner = replace_char_str(argument, '\'', "''");
    push_str(&mut r, inner.as_str());
    r.push('\'');
    assert(r@ =~= powershell_quoted(argument@));
    r
}

fn plain_argument(argument: &str) -> (b: bool)
    ensures
        b == is_plain_argument(argument@),
{
    let v = chars_of(argument);
    if v.len() == 0 {
        return false;
    }
    let mut i: usize = 0;
    while i < v.len()
        invariant
            v@ == argument@,
            i <= v.len(),
            forall|k: int| 0 <= k < i ==> is_plain_char(#[trigger] v@[k]),
        decreases v.len() - i,
    {
        let c = v[i];
        if !(ascii_alnum(c) || c == '_' || c == '.' || c == '/' || c == ':' || c == '-') {
            return false;
        }
        i = i + 1;
    }
    true
}

/// `argument` unchanged when it needs no quoting, else quoted for `shell`.
pub fn render_cli_argument(argument: &str, shell: Shell) -> (r: String)
    ensures
        r@ == cli_argument(argument@, shell),
{
    if plain_argument(argument) {
        let mut r = String::new();
        push_str(&mut r, argument);
        assert(r@ =~= argument@);
        return r;
    }
    match shell {
        Shell::PowerShell => render_powershell_argument(argument),
        Shell::Posix => render_posix_argument(argument),
    }
}

/// The command that reproduces one candidate from the original document.
pub open spec fn inspect_command_text(candidate_id: Seq<char>, shell: Shell) -> Seq<char> {
    "fallow similar-code inspect "@ + cli_argument(candidate_id, shell)
        + " --candidates similar-code.json"@
}

/// The copy-paste command that inspects `candidate_id` against the
/// `similar-code.json` document it came from.
pub fn inspect_command(candidate_id: &str, shell: Shell) -> (r: String)
    ensures
        r@ == inspect_command_text(candidate_id@, shell),
{
    let mut r = String::new();
    push_str(&mut r, "fallow similar-code inspect ");
    let arg = render_cli_argument(candidate_id, shell);
    push_str(&mut r, arg.as_str());
    push_str(&mut r, " --candidates similar-code.json");
    r
}

/// Whether a reviewed candidate's source set was read completely.
#[derive(Debug, Clone, Copy, PartialEq, Eq, Structural)]
pub enum SimilarCodeCompletionStatus {
    Complete,
    Partial,
}

/// How a verdict was matched to its candidate.
#[derive(Debug, Clone, Copy, PartialEq, Eq, Structural)]
pub enum SimilarCodeVerdictMatch {
    CandidateId,
    ReviewKey,
    Unverified,
    AmbiguousReviewKey,
}

/// The domain outcome a review reached.
#[derive(Debug, Clone, Copy, PartialEq, Eq, Structural)]
pub enum SimilarCodeDomainOutcome {
    SameResponsibility,
    RelatedButDistinct,
    IntentionalDuplication,
    Unrelated,
    NeedsHumanReview,
}

/// One side of a candidate pair.
pub struct SimilarCodeLocation {
    pub path: String,
    pub name: String,
    pub start_line: u32,
}

/// A candidate pair.
pub struct SimilarCodeCandidate {
    pub left: SimilarCodeLocation,
    pub right: SimilarCodeLocation,
}

/// A human or agent verdict on a candidate.
pub struct SimilarCodeVerdict {
    pub candidate_worthy: Option<bool>,
    pub behaviorally_equivalent: Option<bool>,
    pub refactor_safe: Option<bool>,
    pub rationale: String,
}

/// A candidate joined with the verdict that matched it, if any.
pub struct SimilarCodeReviewedCandidate {
    pub candidate: SimilarCodeCandidate,
    pub verdict: Option<SimilarCodeVerdict>,
    pub verdict_match: SimilarCodeVerdictMatch,
    pub outcome: SimilarCodeDomainOutcome,
}

/// The joined review of a candidate document.
pub struct SimilarCodeReviewOutput {
    pub candidates: Vec<SimilarCodeReviewedCandidate>,
    pub completion: SimilarCodeCompletionStatus,
}

pub open spec fn judgment_text(value: Option<bool>) -> Seq<char> {
    match value {
        Some(true) => "yes"@,
        Some(false) => "no"@,
        None => "unknown"@,
    }
}

/// `yes`, `no`, or `unknown` for a judgment nobody made.
pub fn judgment_label(value: Option<bool>) -> (r: &'static str)
    ensures
        r@ == judgment_text(value),
{
    match value {
        Some(true) => "yes",
        Some(false) => "no",
        None => "unknown",
    }
}

pub open spec fn verdict_match_text(value: SimilarCodeVerdictMatch) -> Seq<char> {
    match value {
        SimilarCodeVerdictMatch::CandidateId => "candidate-id"@,
        SimilarCodeVerdictMatch::ReviewKey => "review-key"@,
        SimilarCodeVerdictMatch::Unverified => "unverified"@,
        SimilarCodeVerdictMatch::AmbiguousReviewKey => "ambiguous-review-key"@,
    }
}

pub fn verdict_match_label(value: SimilarCodeVerdictMatch) -> (r: &'static str)
    ensures
        r@ == verdict_match_text(value),
{
    match value {
        SimilarCodeVerdictMatch::CandidateId => "candidate-id",
        SimilarCodeVerdictMatch::ReviewKey => "review-key",
        SimilarCodeVerdictMatch::Unverified => "unverified",
        SimilarCodeVerdictMatch::AmbiguousReviewKey => "ambiguous-review-key",
    }
}

pub open spec fn outcome_text(value: SimilarCodeDomainOutcome) -> Seq<char> {
    match value {
        SimilarCodeDomainOutcome::SameResponsibility => "same-responsibility"@,
        SimilarCodeDomainOutcome::RelatedButDistinct => "related-but-distinct"@,
        SimilarCodeDomainOutcome::IntentionalDuplication => "intentional-duplication"@,
        SimilarCodeDomainOutcome::Unrelated => "unrelated"@,
        SimilarCodeDomainOutcome::NeedsHumanReview => "needs-human-review"@,
    }
}

pub fn outcome_label(value: SimilarCodeDomainOutcome) -> (r: &'static str)
    ensures
        r@ == outcome_text(value),
{
    match value {
        SimilarCodeDomainOutcome::SameResponsibility => "same-responsibility",
        SimilarCodeDomainOutcome::RelatedButDistinct => "related-but-distinct",
        SimilarCodeDomainOutcome::IntentionalDuplication => "intentional-duplication",
        SimilarCodeDomainOutcome::Unrelated => "unrelated",
        SimilarCodeDomainOutcome::NeedsHumanReview => "needs-human-review",
    }
}

/// `singular` for exactly one, `plural` otherwise.
pub open spec fn noun(count: nat, singular: Seq<char>, plural: Seq<char>) -> Seq<char> {
    if count == 1 {
        singular
    } else {
        plural
    }
}

/// The closing two lines of a review: the counts and the source completion.
pub open spec fn review_summary_text(
    total: nat,
    matched: nat,
    completion: SimilarCodeCompletionStatus,
) -> Seq<char> {
    let unmatched: nat = if matched <= total {
        (total - matched) as nat
    } else {
        0
    };
    "\nReviewed: "@ + decimal(total) + seq![' '] + noun(total, "candidate"@, "candidates"@)
        + ", "@ + decimal(matched) + " matched "@ + noun(matched, "verdict"@, "verdicts"@)
        + ", "@ + decimal(unmatched) + " unmatched "@ + noun(
        unmatched,
        "candidate"@,
        "candidates"@,
    ) + "\nSource completion: "@ + (if completion == SimilarCodeCompletionStatus::Complete {
        "complete"@
    } else {
        "partial"@
    }) + seq!['\n']
}

/// The counts line and the completion line that close a human review.
pub fn review_summary(
    total: usize,
    matched: usize,
    completion: SimilarCodeCompletionStatus,
) -> (r: String)
    ensures
        r@ == review_summary_text(total as nat, matched as nat, completion),
{
    let unmatched = if matched <= total {
        total - matched
    } else {
        0
    };
    let mut s = String::new();
    push_str(&mut s, "\nReviewed: ");
    push_decimal(&mut s, total as u64);
    s.push(' ');
    push_str(&mut s, if total == 1 { "candidate" } else { "candidates" });
    push_str(&mut s, ", ");
    push_decimal(&mut s, matched as u64);
    push_str(&mut s, " matched ");
    push_str(&mut s, if matched == 1 { "verdict" } else { "verdicts" });
    push_str(&mut s, ", ");
    push_decimal(&mut s, unmatched as u64);
    push_str(&mut s, " unmatched ");
    push_str(&mut s, if unmatched == 1 { "candidate" } else { "candidates" });
    push_str(&mut s, "\nSource completion: ");
    push_str(
        &mut s,
        match completion {
            SimilarCodeCompletionStatus::Complete => "complete",
            SimilarCodeCompletionStatus::Partial => "partial",
        },
    );
    s.push('\n');
    assert(s@ =~= review_summary_text(total as nat, matched as nat, completion));
    s
}

/// `path:line name`.
pub open spec fn location_text(l: SimilarCodeLocation) -> Seq<char> {
    l.path@ + seq![':'] + decimal(l.start_line as nat) + seq![' '] + l.name@
}

pub open spec fn verdict_worthy(v: Option<SimilarCodeVerdict>) -> Option<bool> {
    match v {
        Some(v) => v.candidate_worthy,
        None => None,
    }
}

pub open spec fn verdict_equivalent(v: Option<SimilarCodeVerdict>) -> Option<bool> {
    match v {
        Some(v) => v.behaviorally_equivalent,
        None => None,
    }
}

pub open spec fn verdict_safe(v: Option<SimilarCodeVerdict>) -> Option<bool> {
    match v {
        Some(v) => v.refactor_safe,
        None => None,
    }
}

pub open spec fn verdict_rationale(v: Option<SimilarCodeVerdict>) -> Seq<char> {
    match v {
        Some(v) => v.rationale@,
        None => "no safely matched verdict"@,
    }
}

/// The two locations and how the verdict matched.
pub open spec fn block_head(r: SimilarCodeReviewedCandidate) -> Seq<char> {
    seq!['\n'] + location_text(r.candidate.left) + seq!['\n'] + "  <-> "@ + location_text(
        r.candidate.right,
    ) + seq!['\n'] + "  Match: "@ + verdict_match_text(r.verdict_match) + seq!['\n']
}

/// The three judgments, `unknown` where nobody made one.
pub open spec fn block_judgments(w: Option<bool>, e: Option<bool>, s: Option<bool>) -> Seq<char> {
    "  Candidate worthy: "@ + judgment_text(w) + seq!['\n'] + "  Behaviorally equivalent: "@
        + judgment_text(e) + seq!['\n'] + "  Refactor safe: "@ + judgment_text(s) + seq!['\n']
}

/// The outcome and the rationale.
pub open spec fn block_tail(r: SimilarCodeReviewedCandidate) -> Seq<char> {
    "  Outcome: "@ + outcome_text(r.outcome) + seq!['\n'] + "  Rationale: "@ + verdict_rationale(
        r.verdict,
    ) + seq!['\n']
}

/// The human block for one reviewed candidate: both locations, how the verdict
/// matched, the three judgments, the outcome and the rationale.
pub open spec fn reviewed_block(r: SimilarCodeReviewedCandidate) -> Seq<char> {
    block_head(r) + block_judgments(
        verdict_worthy(r.verdict),
        verdict_equivalent(r.verdict),
        verdict_safe(r.verdict),
    ) + block_tail(r)
}

fn push_location(s: &mut String, l: &SimilarCodeLocation)
    ensures
        final(s)@ == old(s)@ + location_text(*l),
{
    push_str(s, l.path.as_str());
    s.push(':');
    push_decimal(s, l.start_line as u64);
    s.push(' ');
    push_str(s, l.name.as_str());
    assert(s@ =~= old(s)@ + location_text(*l));
}

fn push_block_head(s: &mut String, r: &SimilarCodeReviewedCandidate)
    ensures
        final(s)@ == old(s)@ + block_head(*r),
{
    s.push('\n');
    push_location(s, &r.candidate.left);
    s.push('\n');
    push_str(s, "  <-> ");
    push_location(s, &r.candidate.right);
    s.push('\n');
    push_str(s, "  Match: ");
    push_str(s, verdict_match_label(r.verdict_match));
    s.push('\n');
    assert(s@ =~= old(s)@ + block_head(*r));
}

fn push_block_judgments(s: &mut String, w: Option<bool>, e: Option<bool>, f: Option<bool>)
    ensures
        final(s)@ == old(s)@ + block_judgments(w, e, f),
{
    push_str(s, "  Candidate worthy: ");
    push_str(s, judgment_label(w));
    s.push('\n');
    push_str(s, "  Behaviorally equivalent: ");
    push_str(s, judgment_label(e));
    s.push('\n');
    push_str(s, "  Refactor safe: ");
    push_str(s, judgment_label(f));
    s.push('\n');
    assert(s@ =~= old(s)@ + block_judgments(w, e, f));
}

fn push_block_tail(s: &mut String, r: &SimilarCodeReviewedCandidate)
    ensures
        final(s)@ == old(s)@ + block_tail(*r),
{
    push_str(s, "  Outcome: ");
    push_str(s, outcome_label(r.outcome));
    s.push('\n');
    push_str(s, "  Rationale: ");
    match &r.verdict {
        Some(v) => push_str(s, v.rationale.as_str()),
        None => push_str(s, "no safely matched verdict"),
    }
    s.push('\n');
    assert(s@ =~= old(s)@ + block_tail(*r));
}

/// Append the human block for one reviewed candidate.
pub fn render_reviewed_candidate(rendered: &mut String, reviewed: &SimilarCodeReviewedCandidate)
    ensures
        final(rendered)@ == old(rendered)@ + reviewed_block(*reviewed),
{
    let (worthy, equivalent, safe) = match &reviewed.verdict {
        Some(v) => (v.candidate_worthy, v.behaviorally_equivalent, v.refactor_safe),
        None => (None, None, None),
    };
    push_block_head(rendered, reviewed);
    push_block_judgments(rendered, worthy, equivalent, safe);
    push_block_tail(rendered, reviewed);
    assert(rendered@ =~= old(rendered)@ + reviewed_block(*reviewed));
}

/// The blocks of `cs`, concatenated.
pub open spec fn reviewed_blocks(cs: Seq<SimilarCodeReviewedCandidate>) -> Seq<char>
    decreases cs.len(),
{
    if cs.len() == 0 {
        Seq::empty()
    } else {
        reviewed_blocks(cs.drop_last()) + reviewed_block(cs.last())
    }
}

/// How many of `cs` carry a matched verdict.
pub open spec fn matched_count(cs: Seq<SimilarCodeReviewedCandidate>) -> nat
    decreases cs.len(),
{
    if cs.len() == 0 {
        0
    } else {
        matched_count(cs.drop_last()) + if cs.last().verdict is Some {
            1nat
        } else {
            0nat
        }
    }
}

pub proof fn lemma_matched_count_bound(cs: Seq<SimilarCodeReviewedCandidate>)
    ensures
        matched_count(cs) <= cs.len(),
    decreases cs.len(),
{
    if cs.len() > 0 {
        lemma_matched_count_bound(cs.drop_last());
    }
}

/// The human rendering of a whole review.
pub open spec fn human_review_text(o: SimilarCodeReviewOutput) -> Seq<char> {
    "Similar-code review\n"@ + (if o.candidates@.len() == 0 {
        "\nNo candidates to review.\n"@
    } else {
        Seq::empty()
    }) + reviewed_blocks(o.candidates@) + review_summary_text(
        o.candidates@.len(),
        matched_count(o.candidates@),
        o.completion,
    )
}

/// Render a whole review for a human reader.
pub fn render_human_review(output: &SimilarCodeReviewOutput) -> (r: String)
    ensures
        r@ == human_review_text(*output),
{
    let mut rendered = String::new();
    push_str(&mut rendered, "Similar-code review\n");
    if output.candidates.len() == 0 {
        push_str(&mut rendered, "\nNo candidates to review.\n");
    }
    let ghost head = rendered@;
    let mut matched: usize = 0;
    let mut i: usize = 0;
    while i < output.candidates.len()
        invariant
            i <= output.candidates@.len(),
            rendered@ == head + reviewed_blocks(output.candidates@.take(i as int)),
            matched == matched_count(output.candidates@.take(i as int)),
            matched <= i,
        decreases output.candidates@.len() - i,
    {
        let ghost cs = output.candidates@.take(i as int + 1);
        assert(cs.drop_last() =~= output.candidates@.take(i as int));
        render_reviewed_candidate(&mut rendered, &output.candidates[i]);
        if output.candidates[i].verdict.is_some() {
            matched = matched + 1;
        }
        i = i + 1;
        assert(rendered@ =~= head + reviewed_blocks(output.candidates@.take(i as int)));
    }
    assert(output.candidates@.take(output.candidates@.len() as int) =~= output.candidates@);
    let summary = review_summary(output.candidates.len(), matched, output.completion);
    push_str(&mut rendered, summary.as_str());
    assert(rendered@ =~= human_review_text(*output));
    rendered
}


/// A discovered candidate pair as the human listing shows it; `score` and
/// `band` are already rendered (the score to four decimals).
pub struct DiscoveredCandidate {
    pub candidate_id: String,
    pub score: String,
    pub band: String,
    pub left: SimilarCodeLocation,
    pub right: SimilarCodeLocation,
}

/// The vector cache's activity during a run; `status` is already rendered.
pub struct CacheSummary {
    pub status: String,
    pub hits: u64,
    pub misses: u64,
    pub writes: u64,
}

/// A diagnostic of a discovery run.
pub struct DiscoveryDiagnostic {
    /// Whether it concerns the vector cache.
    pub cache_domain: bool,
    pub message: String,
}

/// The outcome of a discovery run.
pub struct SimilarCodeDiscovery {
    pub candidates: Vec<DiscoveredCandidate>,
    pub completion: SimilarCodeCompletionStatus,
    pub cache: CacheSummary,
    pub diagnostics: Vec<DiscoveryDiagnostic>,
}

/// One side of a discovered pair: `  path:line  name`.
pub open spec fn discovered_side(l: SimilarCodeLocation) -> Seq<char> {
    "  "@ + l.path@ + ":"@ + decimal(l.start_line as nat) + "  "@ + l.name@ + "\n"@
}

/// The block of one discovered candidate.
pub open spec fn discovered_block(c: DiscoveredCandidate, shell: Shell) -> Seq<char> {
    "\n"@ + c.candidate_id@ + "  score "@ + c.score@ + "  "@ + c.band@ + "\n"@ + discovered_side(c.left)
        + discovered_side(c.right) + "  Inspect: "@ + inspect_command_text(c.candidate_id@, shell) + "\n"@
}

/// The blocks of `cs`, in order.
pub open spec fn discovered_blocks(cs: Seq<DiscoveredCandidate>, shell: Shell) -> Seq<char>
    decreases cs.len(),
{
    if cs.len() == 0 {
        Seq::empty()
    } else {
        discovered_blocks(cs.drop_last(), shell) + discovered_block(cs.last(), shell)
    }
}

/// The cache advisories among `ds`, one line each.
pub open spec fn cache_advisories(ds: Seq<DiscoveryDiagnostic>) -> Seq<char>
    decreases ds.len(),
{
    if ds.len() == 0 {
        Seq::empty()
    } else if ds.last().cache_domain {
        cache_advisories(ds.drop_last()) + "Cache advisory: "@ + ds.last().message@ + "\n"@
    } else {
        cache_advisories(ds.drop_last())
    }
}

/// The human listing of a discovery run.
pub open spec fn human_discovery_text(o: SimilarCodeDiscovery, shell: Shell) -> Seq<char> {
    "Similar-code candidates (unverified)\nModel score is cosine similarity, not a probability or refactor verdict.\n"@
        + (if o.candidates@.len() == 0 {
        if o.completion == SimilarCodeCompletionStatus::Complete {
            "No candidates met the configured threshold.\n"@
        } else {
            "No candidates were returned, but the run was partial. Inspect completion in JSON before concluding absence.\n"@
        }
    } else {
        Seq::empty()
    }) + discovered_blocks(o.candidates@, shell) + "\n"@ + (if o.completion
        == SimilarCodeCompletionStatus::Complete {
        "Completion: Complete\n"@
    } else {
        "Completion: Partial (use --format json to inspect skipped work)\n"@
    }) + "Cache: "@ + o.cache.status@ + " ("@ + decimal(o.cache.hits as nat) + " hits, "@ + decimal(
        o.cache.misses as nat,
    ) + " misses, "@ + decimal(o.cache.writes as nat) + " writes)\n"@ + cache_advisories(o.diagnostics@)
}

fn push_discovered_side(out: &mut String, l: &SimilarCodeLocation)
    ensures
        final(out)@ == old(out)@ + discovered_side(*l),
{
    push_str(out, "  ");
    push_str(out, l.path.as_str());
    push_str(out, ":");
    push_decimal(out, l.start_line as u64);
    push_str(out, "  ");
    push_str(out, l.name.as_str());
    push_str(out, "\n");
    proof {
        assert(final(out)@ =~= old(out)@ + discovered_side(*l));
    }
}

/// The human listing of a discovery run: the candidates with the command that
/// inspects each (quoted for `shell`), the completion, and the cache activity.
pub fn render_human_discovery(output: &SimilarCodeDiscovery, shell: Shell) -> (r: String)
    ensures
        r@ == human_discovery_text(*output, shell),
{
    let mut r = String::new();
    push_str(&mut r, "Similar-code candidates (unverified)\nModel score is cosine similarity, not a probability or refactor verdict.\n");
    if output.candidates.len() == 0 {
        match output.completion {
            SimilarCodeCompletionStatus::Complete => push_str(&mut r, "No candidates met the configured threshold.\n"),
            SimilarCodeCompletionStatus::Partial => push_str(
                &mut r,
                "No candidates were returned, but the run was partial. Inspect completion in JSON before concluding absence.\n",
            ),
        }
    }
    let ghost head = r@;
    let mut i: usize = 0;
    while i < output.candidates.len()
        invariant
            i <= output.candidates@.len(),
            r@ == head + discovered_blocks(output.candidates@.take(i as int), shell),
        decreases output.candidates@.len() - i,
    {
        let ghost cs = output.candidates@.take(i as int + 1);
        assert(cs.drop_last() =~= output.candidates@.take(i as int));
        let ghost before = r@;
        let c = &output.candidates[i];
        push_str(&mut r, "\n");
        push_str(&mut r, c.candidate_id.as_str());
        push_str(&mut r, "  score ");
        push_str(&mut r, c.score.as_str());
        push_str(&mut r, "  ");
        push_str(&mut r, c.band.as_str());
        push_str(&mut r, "\n");
        push_discovered_side(&mut r, &c.left);
        push_discovered_side(&mut r, &c.right);
        push_str(&mut r, "  Inspect: ");
        let command = inspect_command(c.candidate_id.as_str(), shell);
        push_str(&mut r, command.as_str());
        push_str(&mut r, "\n");
        assert(r@ =~= before + discovered_block(*c, shell));
        i = i + 1;
        assert(r@ =~= head + discovered_blocks(output.candidates@.take(i as int), shell));
    }
    assert(output.candidates@.take(output.candidates@.len() as int) =~= output.candidates@);
    push_str(&mut r, "\n");
    match output.completion {
        SimilarCodeCompletionStatus::Complete => push_str(&mut r, "Completion: Complete\n"),
        SimilarCodeCompletionStatus::Partial => push_str(
            &mut r,
            "Completion: Partial (use --format json to inspect skipped work)\n",
        ),
    }
    push_str(&mut r, "Cache: ");
    push_str(&mut r, output.cache.status.as_str());
    push_str(&mut r, " (");
    push_decimal(&mut r, output.cache.hits);
    push_str(&mut r, " hits, ");
    push_decimal(&mut r, output.cache.misses);
    push_str(&mut r, " misses, ");
    push_decimal(&mut r, output.cache.writes);
    push_str(&mut r, " writes)\n");
    let ghost mid = r@;
    let mut k: usize = 0;
    while k < output.diagnostics.len()
        invariant
            k <= output.diagnostics@.len(),
            r@ == mid + cache_advisories(output.diagnostics@.take(k as int)),
        decreases output.diagnostics@.len() - k,
    {
        let ghost ds = output.diagnostics@.take(k as int + 1);
        assert(ds.drop_last() =~= output.diagnostics@.take(k as int));
        let ghost before = r@;
        let d = &output.diagnostics[k];
        if d.cache_domain {
            push_str(&mut r, "Cache advisory: ");
            push_str(&mut r, d.message.as_str());
            push_str(&mut r, "\n");
            assert(r@ =~= before + "Cache advisory: "@ + d.message@ + "\n"@);
        }
        k = k + 1;
        assert(r@ =~= mid + cache_advisories(output.diagnostics@.take(k as int)));
    }
    assert(output.diagnostics@.take(output.diagnostics@.len() as int) =~= output.diagnostics@);
    assert(r@ =~= human_discovery_text(*output, shell));
    r
}

/// Why `fallow similar-code` refuses an output format, if it does: it is
/// advisory and renders only human and JSON output.
pub fn similar_code_format_refusal(output: OutputFormat) -> (r: Option<&'static str>)
    ensures
        (output == OutputFormat::Human || output == OutputFormat::Json) <==> r is None,
        r matches Some(m) ==> m@ == "`fallow similar-code` supports only human and json output; it is advisory and has no SARIF or CI gate"@,
{
    match output {
        OutputFormat::Human | OutputFormat::Json => None,
        _ => Some("`fallow similar-code` supports only human and json output; it is advisory and has no SARIF or CI gate"),
    }
}

/// The progress note a discovery run prints before inference, unless quiet.
pub fn discovery_progress_note(quiet: bool, no_cache: bool) -> (r: Option<&'static str>)
    ensures
        quiet <==> r is None,
        r matches Some(m) ==> m@ == (if no_cache {
            "fallow: similar-code inference runs locally and offline. This uncached run may take minutes."@
        } else {
            "fallow: similar-code inference runs locally and offline. The first run may take minutes; subsequent runs reuse the user-local project cache."@
        }),
{
    if quiet {
        None
    } else if no_cache {
        Some("fallow: similar-code inference runs locally and offline. This uncached run may take minutes.")
    } else {
        Some("fallow: similar-code inference runs locally and offline. The first run may take minutes; subsequent runs reuse the user-local project cache.")
    }
}

/// The largest candidate or verdict document accepted, in bytes (16 MiB).
pub const MAX_CANDIDATE_INPUT_BYTES: u64 = 16777216;

/// Where `inspect` reads the candidate it reproduces from.
#[derive(Debug, Clone, Copy, PartialEq, Eq, Structural)]
pub enum SnapshotSource {
    /// The `--candidates` document.
    CandidatesFile,
    /// A single-candidate snapshot on stdin.
    Stdin,
}

/// Choose where `inspect` reads its candidate: the `--candidates` document
/// when given, else stdin when `--candidate-snapshot-stdin` is set; with
/// neither the command is refused.
pub fn inspect_snapshot_source(has_candidates: bool, candidate_snapshot_stdin: bool) -> (r: Result<
    SnapshotSource,
    &'static str,
>)
    ensures
        has_candidates ==> r == Ok::<SnapshotSource, &'static str>(SnapshotSource::CandidatesFile),
        !has_candidates && candidate_snapshot_stdin ==> r == Ok::<SnapshotSource, &'static str>(SnapshotSource::Stdin),
        !has_candidates && !candidate_snapshot_stdin ==> (r matches Err(m) && m@ == "inspect requires --candidates"@),
{
    if has_candidates {
        Ok(SnapshotSource::CandidatesFile)
    } else if candidate_snapshot_stdin {
        Ok(SnapshotSource::Stdin)
    } else {
        Err("inspect requires --candidates")
    }
}

/// The refusal for a candidate or verdict document over the size limit, if
/// `len` bytes is over it.
pub fn input_size_refusal(len: u64, verdicts: bool) -> (r: Option<&'static str>)
    ensures
        len <= MAX_CANDIDATE_INPUT_BYTES <==> r is None,
        r matches Some(m) ==> m@ == (if verdicts {
            "similar-code verdict input exceeded the 16 MiB limit"@
        } else {
            "similar-code candidate input exceeded the 16 MiB limit"@
        }),
{
    if len <= MAX_CANDIDATE_INPUT_BYTES {
        None
    } else if verdicts {
        Some("similar-code verdict input exceeded the 16 MiB limit")
    } else {
        Some("similar-code candidate input exceeded the 16 MiB limit")
    }
}

/// What a `fallow similar-code` invocation does next.
pub enum SimilarCodeStep {
    /// Refuse the invocation with this message (exit 2).
    Refuse(&'static str),
    Status,
    Setup { yes: bool },
    Inspect { candidate_id: String, candidates: Option<String>, candidate_snapshot_stdin: bool },
    Review { candidates: String, verdicts: String, require_verdict_for_each_candidate: bool },
    CacheClear { yes: bool },
    /// Run discovery, printing the progress note first when there is one.
    Discover { note: Option<&'static str> },
}

/// The step for an invocation: an output format other than human or JSON is
/// refused before anything runs; otherwise the subcommand decides, and no
/// subcommand means discovery.
pub fn plan_similar_code_run(
    output: OutputFormat,
    subcommand: Option<SimilarCodeSubcommand>,
    quiet: bool,
    no_cache: bool,
) -> (r: SimilarCodeStep)
    ensures
        !(output == OutputFormat::Human || output == OutputFormat::Json) ==> (r matches SimilarCodeStep::Refuse(m)
            && m@ == "`fallow similar-code` supports only human and json output; it is advisory and has no SARIF or CI gate"@),
        (output == OutputFormat::Human || output == OutputFormat::Json) ==> match subcommand {
            None => r matches SimilarCodeStep::Discover { note } && (quiet <==> note is None) && (
            note matches Some(m) ==> m@ == (if no_cache {
                "fallow: similar-code inference runs locally and offline. This uncached run may take minutes."@
            } else {
                "fallow: similar-code inference runs locally and offline. The first run may take minutes; subsequent runs reuse the user-local project cache."@
            })),
            Some(SimilarCodeSubcommand::Status) => r is Status,
            Some(SimilarCodeSubcommand::Setup { local, yes }) => r == SimilarCodeStep::Setup { yes },
            Some(SimilarCodeSubcommand::Inspect { candidate_id, candidates, candidate_snapshot_stdin }) => r
                == SimilarCodeStep::Inspect { candidate_id, candidates, candidate_snapshot_stdin },
            Some(SimilarCodeSubcommand::Review { candidates, verdicts, require_verdict_for_each_candidate }) => r
                == SimilarCodeStep::Review { candidates, verdicts, require_verdict_for_each_candidate },
            Some(SimilarCodeSubcommand::Cache { subcommand: SimilarCodeCacheSubcommand::Clear { yes } }) => r
                == SimilarCodeStep::CacheClear { yes },
        },
{
    if let Some(m) = similar_code_format_refusal(output) {
        return SimilarCodeStep::Refuse(m);
    }
    match subcommand {
        None => SimilarCodeStep::Discover { note: discovery_progress_note(quiet, no_cache) },
        Some(SimilarCodeSubcommand::Status) => SimilarCodeStep::Status,
        Some(SimilarCodeSubcommand::Setup { local: _, yes }) => SimilarCodeStep::Setup { yes },
        Some(SimilarCodeSubcommand::Inspect { candidate_id, candidates, candidate_snapshot_stdin }) =>
            SimilarCodeStep::Inspect { candidate_id, candidates, candidate_snapshot_stdin },
        Some(SimilarCodeSubcommand::Review { candidates, verdicts, require_verdict_for_each_candidate }) =>
            SimilarCodeStep::Review { candidates, verdicts, require_verdict_for_each_candidate },
        Some(SimilarCodeSubcommand::Cache { subcommand: SimilarCodeCacheSubcommand::Clear { yes } }) =>
            SimilarCodeStep::CacheClear { yes },
    }
}

} // verus!
