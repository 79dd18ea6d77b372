//! The inline-review envelope: the label and CI conclusion a set of
//! CodeClimate issues earns, the GitLab diff refs a comment is anchored to,
//! and the text of the envelope's body and comments.
use vstd::prelude::*;
use crate::severity::{review_label, review_label_spec, Severity};
use crate::text::{copy_str, decimal, parse_usize, parsed_usize, push_decimal, push_str, str_eq, trim, trim_str};

verus! {

/// Whether a CodeClimate severity blocks: `major`, `critical` or `blocker`.
pub open spec fn blocking_severity(s: Seq<char>) -> bool {
    s == "major"@ || s == "critical"@ || s == "blocker"@
}

fn is_blocking(s: &str) -> (r: bool)
    ensures
        r == blocking_severity(s@),
{
    str_eq(s, "major") || str_eq(s, "critical") || str_eq(s, "blocker")
}

/// The review label of a CodeClimate severity: blocking severities read as
/// errors, everything else as warnings.
pub fn review_label_from_codeclimate(severity_name: &str) -> (r: &'static str)
    ensures
        r@ == review_label_spec(if blocking_severity(severity_name@) {
            Severity::Error
        } else {
            Severity::Warn
        }),
{
    if is_blocking(severity_name) {
        review_label(Severity::Error)
    } else {
        review_label(Severity::Warn)
    }
}

/// The CI conclusion an inline review reports.
#[derive(Debug, Clone, Copy, PartialEq, Eq, Structural)]
pub enum ReviewCheckConclusion {
    Success,
    Neutral,
    Failure,
}

/// The conclusion for issues with severities `severities`: failure when any
/// blocks, success when there are none, neutral otherwise.
pub open spec fn check_conclusion_of(severities: Seq<Seq<char>>) -> ReviewCheckConclusion {
    if exists|i: int| 0 <= i < severities.len() && blocking_severity(#[trigger] severities[i]) {
        ReviewCheckConclusion::Failure
    } else if severities.len() == 0 {
        ReviewCheckConclusion::Success
    } else {
        ReviewCheckConclusion::Neutral
    }
}

/// The GitHub check conclusion for issues with these CodeClimate severities.
pub fn github_check_conclusion(severities: &Vec<String>) -> (r: ReviewCheckConclusion)
    ensures
        r == check_conclusion_of(severities@.map_values(|s: String| s@)),
{
    let ghost sv = severities@.map_values(|s: String| s@);
    let mut i: usize = 0;
    while i < severities.len()
        invariant
            i <= severities@.len(),
            sv == severities@.map_values(|s: String| s@),
            forall|k: int| 0 <= k < i ==> !blocking_severity(#[trigger] sv[k]),
        decreases severities@.len() - i,
    {
        assert(sv[i as int] == severities@[i as int]@);
        if is_blocking(severities[i].as_str()) {
            return ReviewCheckConclusion::Failure;
        }
        i = i + 1;
    }
    if severities.len() == 0 {
        ReviewCheckConclusion::Success
    } else {
        ReviewCheckConclusion::Neutral
    }
}

/// The label a comment on a finding of severity `s` carries.
pub open spec fn comment_label(s: Seq<char>) -> Seq<char> {
    review_label_spec(if blocking_severity(s) {
        Severity::Error
    } else {
        Severity::Warn
    })
}

/// The check fails exactly when some finding is `major`, `critical` or
/// `blocker`, which are exactly the findings whose comments are labelled
/// `error`; it succeeds exactly when there are no findings, and is neutral
/// otherwise.
pub proof fn law_check_fails_exactly_on_a_blocking_finding(severities: Seq<Seq<char>>)
    ensures
        check_conclusion_of(severities) == ReviewCheckConclusion::Failure <==> exists|i: int|
            0 <= i < severities.len() && (severities[i] == "major"@ || severities[i] == "critical"@
                || severities[i] == "blocker"@),
        check_conclusion_of(severities) == ReviewCheckConclusion::Failure <==> exists|i: int|
            0 <= i < severities.len() && comment_label(#[trigger] severities[i]) == "error"@,
        check_conclusion_of(severities) == ReviewCheckConclusion::Success <==> severities.len() == 0,
{
    reveal_strlit("error");
    reveal_strlit("warn");
    assert(forall|s: Seq<char>| #[trigger] comment_label(s) == "error"@ <==> blocking_severity(s)) by {
        assert("error"@ != "warn"@) by {
            assert("error"@.len() != "warn"@.len());
        }
    }
    if check_conclusion_of(severities) == ReviewCheckConclusion::Failure {
        let i = choose|i: int| 0 <= i < severities.len() && blocking_severity(#[trigger] severities[i]);
        assert(comment_label(severities[i]) == "error"@);
    }
    if exists|i: int| 0 <= i < severities.len() && comment_label(#[trigger] severities[i]) == "error"@ {
        let i = choose|i: int| 0 <= i < severities.len() && comment_label(#[trigger] severities[i]) == "error"@;
        assert(blocking_severity(severities[i]));
    }
    if severities.len() == 0 {
        assert(!exists|i: int| 0 <= i < severities.len() && blocking_severity(#[trigger] severities[i]));
    }
}

/// The diff refs a GitLab review position carries.
#[derive(Debug, Clone, PartialEq, Eq)]
pub struct GitlabDiffRefs {
    pub base_sha: String,
    pub start_sha: String,
    pub head_sha: String,
}

/// A variable's value when it is set and not blank.
pub open spec fn nonempty(v: Option<Seq<char>>) -> Option<Seq<char>> {
    match v {
        Some(s) => if trim(s).len() > 0 {
            Some(s)
        } else {
            None
        },
        None => None,
    }
}

/// The first of two optional values that is set.
pub open spec fn either(a: Option<Seq<char>>, b: Option<Seq<char>>) -> Option<Seq<char>> {
    if a is Some {
        a
    } else {
        b
    }
}

fn nonempty_value(v: Option<&str>) -> (r: Option<String>)
    ensures
        match r {
            Some(s) => nonempty(match v { Some(x) => Some(x@), None => None }) == Some(s@),
            None => nonempty(match v { Some(x) => Some(x@), None => None }) is None,
        },
{
    match v {
        Some(x) => {
            let t = trim_str(x);
            if t.as_str().unicode_len() > 0 {
                let mut s = String::new();
                push_str(&mut s, x);
                assert(s@ =~= x@);
                Some(s)
            } else {
                None
            }
        },
        None => None,
    }
}

/// The views of an optional string slice.
pub open spec fn opt_view(v: Option<&str>) -> Option<Seq<char>> {
    match v {
        Some(x) => Some(x@),
        None => None,
    }
}

/// GitLab diff refs from the environment: the base from
/// `FALLOW_GITLAB_BASE_SHA` or `CI_MERGE_REQUEST_DIFF_BASE_SHA`, the start
/// from `FALLOW_GITLAB_START_SHA` or else the base, the head from
/// `FALLOW_GITLAB_HEAD_SHA` or `CI_COMMIT_SHA`; blank values count as unset,
/// and without a base or a head there are no refs.
pub fn gitlab_diff_refs(
    fallow_base: Option<&str>,
    ci_base: Option<&str>,
    fallow_start: Option<&str>,
    fallow_head: Option<&str>,
    ci_head: Option<&str>,
) -> (r: Option<GitlabDiffRefs>)
    ensures
        ({
            let base = either(nonempty(opt_view(fallow_base)), nonempty(opt_view(ci_base)));
            let head = either(nonempty(opt_view(fallow_head)), nonempty(opt_view(ci_head)));
            match r {
                None => base is None || head is None,
                Some(refs) => base == Some(refs.base_sha@) && head == Some(refs.head_sha@)
                    && either(nonempty(opt_view(fallow_start)), base) == Some(refs.start_sha@),
            }
        }),
{
    let base = match nonempty_value(fallow_base) {
        Some(b) => b,
        None => match nonempty_value(ci_base) {
            Some(b) => b,
            None => return None,
        },
    };
    let start = match nonempty_value(fallow_start) {
        Some(s) => s,
        None => {
            let mut s = String::new();
            push_str(&mut s, base.as_str());
            assert(s@ =~= base@);
            s
        },
    };
    let head = match nonempty_value(fallow_head) {
        Some(h) => h,
        None => match nonempty_value(ci_head) {
            Some(h) => h,
            None => return None,
        },
    };
    Some(GitlabDiffRefs { base_sha: base, start_sha: start, head_sha: head })
}

/// The number of inline comments to post: `FALLOW_MAX_COMMENTS` when it
/// parses as a count, else 50.
pub fn max_comments(value: Option<&str>) -> (r: usize)
    ensures
        r == match value {
            Some(v) => match parsed_usize(v@) {
                Some(n) => n,
                None => 50,
            },
            None => 50,
        },
{
    match value {
        Some(v) => match parse_usize(v) {
            Some(n) => n,
            None => 50,
        },
        None => 50,
    }
}

/// The body of a review envelope.
pub open spec fn review_body_text(title: Seq<char>, selected: nat, provider: Seq<char>) -> Seq<char> {
    "### Fallow "@ + title + "\n\n"@ + decimal(selected) + " inline finding"@ + (if selected == 1 {
        Seq::empty()
    } else {
        "s"@
    }) + " selected for "@ + provider + " review.\n\n<!-- fallow-review -->"@
}

/// The body of a review envelope: the command's title and how many of
/// `issue_count` findings (at most `max`) were selected for inline comments.
pub fn review_body(title: &str, issue_count: usize, max: usize, provider: &str) -> (r: String)
    ensures
        r@ == review_body_text(
            title@,
            (if issue_count < max {
                issue_count
            } else {
                max
            }) as nat,
            provider@,
        ),
{
    let selected = if issue_count < max { issue_count } else { max };
    let mut r = String::new();
    push_str(&mut r, "### Fallow ");
    push_str(&mut r, title);
    push_str(&mut r, "\n\n");
    push_decimal(&mut r, selected as u64);
    push_str(&mut r, " inline finding");
    if selected != 1 {
        push_str(&mut r, "s");
    }
    push_str(&mut r, " selected for ");
    push_str(&mut r, provider);
    push_str(&mut r, " review.\n\n<!-- fallow-review -->");
    assert(r@ =~= review_body_text(title@, selected as nat, provider@));
    r
}

/// The body of one inline comment, from the label and the already escaped
/// rule id and description.
pub open spec fn comment_body_text(label: Seq<char>, rule: Seq<char>, description: Seq<char>, fingerprint: Seq<char>) -> Seq<char> {
    "**"@ + label + "** `"@ + rule + "`: "@ + description + "\n\n<!-- fallow-fingerprint: "@ + fingerprint + " -->"@
}

/// The body of one inline comment; `rule` and `description` arrive escaped
/// for markdown.
pub fn comment_body(label: &str, rule: &str, description: &str, fingerprint: &str) -> (r: String)
    ensures
        r@ == comment_body_text(label@, rule@, description@, fingerprint@),
{
    let mut r = String::new();
    push_str(&mut r, "**");
    push_str(&mut r, label);
    push_str(&mut r, "** `");
    push_str(&mut r, rule);
    push_str(&mut r, "`: ");
    push_str(&mut r, description);
    push_str(&mut r, "\n\n<!-- fallow-fingerprint: ");
    push_str(&mut r, fingerprint);
    push_str(&mut r, " -->");
    assert(r@ =~= comment_body_text(label@, rule@, description@, fingerprint@));
    r
}

/// A finding's line as a review position carries it: saturated to `u32`.
pub fn review_line(line: u64) -> (r: u32)
    ensures
        r == (if line <= u32::MAX {
            line
        } else {
            u32::MAX as u64
        }),
{
    if line <= u32::MAX as u64 {
        line as u32
    } else {
        u32::MAX
    }
}

/// One issue to comment on inline. `rule_id` and `description` arrive
/// escaped for markdown; `suggestion` is the provider's suggestion block, if
/// the issue has one.
pub struct ReviewIssue {
    pub severity: String,
    pub rule_id: String,
    pub description: String,
    pub fingerprint: String,
    pub path: String,
    pub line: u64,
    pub suggestion: Option<String>,
}

/// One inline review comment, shaped for its provider.
pub enum ReviewComment {
    GitHub { path: String, line: u32, body: String, fingerprint: String },
    GitLab {
        body: String,
        base_sha: Option<String>,
        start_sha: Option<String>,
        head_sha: Option<String>,
        old_path: String,
        new_path: String,
        new_line: u32,
        fingerprint: String,
    },
}

/// The review envelope a provider is sent: GitHub's carries the `comment`
/// event and a check conclusion, GitLab's neither.
pub struct ReviewEnvelope {
    pub comment_event: bool,
    pub body: String,
    pub comments: Vec<ReviewComment>,
    pub check_conclusion: Option<ReviewCheckConclusion>,
}

/// The text of an optional string.
pub open spec fn opt_view_string(v: Option<String>) -> Option<Seq<char>> {
    match v {
        Some(x) => Some(x@),
        None => None,
    }
}

/// The text of an issue's comment: its labelled body, then its suggestion.
pub open spec fn issue_body_text(i: ReviewIssue) -> Seq<char> {
    comment_body_text(
        review_label_spec(if blocking_severity(i.severity@) {
            Severity::Error
        } else {
            Severity::Warn
        }),
        i.rule_id@,
        i.description@,
        i.fingerprint@,
    ) + match i.suggestion {
        Some(x) => x@,
        None => Seq::empty(),
    }
}

/// A line saturated to `u32`.
pub open spec fn saturated_line(line: u64) -> u32 {
    if line <= u32::MAX {
        line as u32
    } else {
        u32::MAX
    }
}

/// `c` is the comment for `i`: GitHub's on the new file state at the
/// issue's line, GitLab's a text position on the issue's path carrying the
/// diff refs, when there are any.
pub open spec fn comment_of(c: ReviewComment, github: bool, i: ReviewIssue, refs: Option<GitlabDiffRefs>) -> bool {
    if github {
        c matches ReviewComment::GitHub { path, line, body, fingerprint } && path@ == i.path@ && line
            == saturated_line(i.line) && body@ == issue_body_text(i) && fingerprint@ == i.fingerprint@
    } else {
        c matches ReviewComment::GitLab {
            body,
            base_sha,
            start_sha,
            head_sha,
            old_path,
            new_path,
            new_line,
            fingerprint,
        } && body@ == issue_body_text(i) && old_path@ == i.path@ && new_path@ == i.path@ && new_line
            == saturated_line(i.line) && fingerprint@ == i.fingerprint@ && match refs {
            Some(r) => opt_view_string(base_sha) == Some(r.base_sha@) && opt_view_string(start_sha) == Some(
                r.start_sha@,
            ) && opt_view_string(head_sha) == Some(r.head_sha@),
            None => base_sha is None && start_sha is None && head_sha is None,
        }
    }
}

/// The inline comment for one issue.
pub fn render_comment(github: bool, issue: &ReviewIssue, refs: Option<&GitlabDiffRefs>) -> (r: ReviewComment)
    ensures
        comment_of(
            r,
            github,
            *issue,
            match refs {
                Some(x) => Some(*x),
                None => None,
            },
        ),
{
    let label = review_label_from_codeclimate(issue.severity.as_str());
    let mut body = comment_body(label, issue.rule_id.as_str(), issue.description.as_str(), issue.fingerprint.as_str());
    if let Some(suggestion) = &issue.suggestion {
        push_str(&mut body, suggestion.as_str());
    }
    let line = review_line(issue.line);
    if github {
        ReviewComment::GitHub {
            path: copy_str(issue.path.as_str()),
            line,
            body,
            fingerprint: copy_str(issue.fingerprint.as_str()),
        }
    } else {
        let (base_sha, start_sha, head_sha) = match refs {
            Some(r) => (
                Some(copy_str(r.base_sha.as_str())),
                Some(copy_str(r.start_sha.as_str())),
                Some(copy_str(r.head_sha.as_str())),
            ),
            None => (None, None, None),
        };
        ReviewComment::GitLab {
            body,
            base_sha,
            start_sha,
            head_sha,
            old_path: copy_str(issue.path.as_str()),
            new_path: copy_str(issue.path.as_str()),
            new_line: line,
            fingerprint: copy_str(issue.fingerprint.as_str()),
        }
    }
}

/// The severities of the issues, in order.
pub open spec fn severities_of(issues: Seq<ReviewIssue>) -> Seq<Seq<char>> {
    issues.map_values(|i: ReviewIssue| i.severity@)
}

/// The review envelope for `issues`: a body naming the command (`title`) and
/// how many findings were selected for the provider (`provider`, GitHub when
/// `github`), one comment for each of the first `max` issues, in order, and,
/// for GitHub, the `comment` event and the check conclusion of all issues.
/// `refs` anchors GitLab comments; GitHub's ignore it.
pub fn render_review_envelope(
    title: &str,
    github: bool,
    provider: &str,
    issues: &Vec<ReviewIssue>,
    max: usize,
    refs: Option<&GitlabDiffRefs>,
) -> (r: ReviewEnvelope)
    ensures
        r.body@ == review_body_text(
            title@,
            (if issues@.len() < max {
                issues@.len()
            } else {
                max as nat
            }),
            provider@,
        ),
        r.comments@.len() == (if issues@.len() < max {
            issues@.len()
        } else {
            max as nat
        }),
        forall|k: int|
            0 <= k < r.comments@.len() ==> comment_of(
                #[trigger] r.comments@[k],
                github,
                issues@[k],
                match refs {
                    Some(x) => Some(*x),
                    None => None,
                },
            ),
        r.comment_event == github,
        r.check_conclusion == (if github {
            Some(check_conclusion_of(severities_of(issues@)))
        } else {
            None
        }),
{
    let body = review_body(title, issues.len(), max, provider);
    let n = if issues.len() < max { issues.len() } else { max };
    let mut comments: Vec<ReviewComment> = Vec::new();
    let mut i: usize = 0;
    while i < n
        invariant
            n <= issues@.len(),
            i <= n,
            comments@.len() == i,
            forall|k: int|
                0 <= k < i ==> comment_of(
                    #[trigger] comments@[k],
                    github,
                    issues@[k],
                    match refs {
                        Some(x) => Some(*x),
                        None => None,
                    },
                ),
        decreases n - i,
    {
        comments.push(render_comment(github, &issues[i], refs));
        i = i + 1;
    }
    let check_conclusion = if github {
        let mut severities: Vec<String> = Vec::new();
        let mut j: usize = 0;
        while j < issues.len()
            invariant
                j <= issues@.len(),
                severities@.map_values(|s: String| s@) == severities_of(issues@).take(j as int),
            decreases issues@.len() - j,
        {
            let ghost prev = severities@.map_values(|s: String| s@);
            severities.push(copy_str(issues[j].severity.as_str()));
            assert(severities@.map_values(|s: String| s@) =~= prev.push(issues@[j as int].severity@));
            assert(severities_of(issues@).take(j as int + 1) =~= severities_of(issues@).take(j as int).push(
                issues@[j as int].severity@,
            ));
            j = j + 1;
        }
        assert(severities_of(issues@).take(issues@.len() as int) =~= severities_of(issues@));
        Some(github_check_conclusion(&severities))
    } else {
        None
    };
    ReviewEnvelope { comment_event: github, body, comments, check_conclusion }
}

} // verus!
