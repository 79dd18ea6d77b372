//! The sticky PR/MR comment's marker and decision surface: the workspace
//! suffix that keeps parallel per-workspace jobs apart, the marker id, and the
//! one-line decision summary.
use vstd::prelude::*;
use vstd::utf8::encode_utf8;
use crate::fingerprint::{fnv_bytes, fnv_update, FNV_OFFSET};
use crate::text::{
    ascii_alnum, chars_of, decimal, strip_dashes, strip_leading_dashes, strip_trailing_dashes, hex_fixed, is_ascii_alnum, push_decimal, push_hex, push_str,
    str_eq, string_of, trim, trim_str, lex_le, lex_sorted, lex_le_vec, lemma_lex_total,
    lemma_lex_transitive, lemma_sorted_unique, join_with,
};

verus! {

/// Six lowercase hex digits: the low 24 bits of FNV-1a over the UTF-8 bytes.
pub open spec fn short_hash_text(value: Seq<char>) -> Seq<char> {
    hex_fixed((fnv_bytes(FNV_OFFSET, encode_utf8(value)) % 0x100_0000) as nat, 6)
}

/// A 6-character FNV-1a hex digest: content-determined, so stable across runs
/// and Rust versions, and short enough for a marker suffix.
pub fn short_hex_hash(value: &str) -> (r: String)
    ensures
        r@ == short_hash_text(value@),
{
    let h = fnv_update(FNV_OFFSET, value.as_bytes());
    let low: u64 = h & 0x00ff_ffff;
    assert(low == h % 0x100_0000) by (bit_vector)
        requires
            low == h & 0x00ff_ffff,
    ;
    let mut s = String::new();
    push_hex(&mut s, low, 6);
    assert(Seq::<char>::empty() + hex_fixed(low as nat, 6) =~= hex_fixed(low as nat, 6));
    s
}

/// What a character of a workspace name becomes in the marker: ASCII letters,
/// digits, `-`, `_` and `.` stay, anything else becomes `-`.
pub open spec fn marker_char(c: char) -> char {
    if is_ascii_alnum(c) || c == '-' || c == '_' || c == '.' {
        c
    } else {
        '-'
    }
}

/// A workspace name made safe for the `<!-- fallow-id: <id> -->` marker:
/// every unsafe character mapped to `-`, then `-` trimmed from both ends.
pub open spec fn sanitized(value: Seq<char>) -> Seq<char> {
    strip_trailing_dashes(strip_leading_dashes(value.map_values(|c: char| marker_char(c))))
}

/// Make a workspace name safe for the HTML-comment marker: `<`, `>` and `--`
/// are reserved by the comment grammar and whitespace would split the id.
pub fn sanitize_marker_segment(value: &str) -> (r: String)
    ensures
        r@ == sanitized(value@),
{
    let v = chars_of(value);
    let n = v.len();
    let mut m: Vec<char> = Vec::new();
    let mut k: usize = 0;
    while k < n
        invariant
            n == v.len(),
            k <= n,
            m@ == v@.take(k as int).map_values(|c: char| marker_char(c)),
        decreases n - k,
    {
        let c = v[k];
        let keep = ascii_alnum(c) || c == '-' || c == '_' || c == '.';
        if keep {
            m.push(c);
        } else {
            m.push('-');
        }
        k = k + 1;
        assert(m@ =~= v@.take(k as int).map_values(|c: char| marker_char(c)));
    }
    assert(v@.take(n as int) =~= v@);
    strip_dashes(&m)
}


/// The views of a slice of strings.
pub open spec fn string_views(values: Seq<String>) -> Seq<Seq<char>> {
    values.map_values(|v: String| v@)
}

/// The values trimmed, with the ones left empty dropped, in order.
pub open spec fn kept_values(vs: Seq<Seq<char>>) -> Seq<Seq<char>>
    decreases vs.len(),
{
    if vs.len() == 0 {
        Seq::empty()
    } else {
        let prev = kept_values(vs.drop_last());
        let t = trim(vs.last());
        if t.len() == 0 {
            prev
        } else {
            prev.push(t)
        }
    }
}

/// The marker of a selection of several workspaces, from their names in
/// sorted order: `w-` and the short hash of the names joined by commas.
pub open spec fn selection_marker(sorted: Seq<Seq<char>>) -> Seq<char> {
    "w-"@ + short_hash_text(join_with(sorted, ","@))
}

proof fn lemma_insert_sorted(gs: Seq<Seq<char>>, p: int, x: Seq<char>)
    requires
        lex_sorted(gs),
        0 <= p <= gs.len(),
        forall|q: int| 0 <= q < p ==> lex_le(#[trigger] gs[q], x),
        forall|q: int| p <= q < gs.len() ==> lex_le(x, #[trigger] gs[q]),
    ensures
        lex_sorted(gs.insert(p, x)),
{
    let r = gs.insert(p, x);
    assert forall|i: int, j: int| 0 <= i < j < r.len() implies lex_le(
        #[trigger] r[i],
        #[trigger] r[j],
    ) by {
        if j < p {
            assert(r[i] == gs[i] && r[j] == gs[j]);
        } else if j == p {
            assert(r[i] == gs[i]);
        } else if i < p {
            assert(r[i] == gs[i] && r[j] == gs[j - 1]);
            if i < j - 1 {
                assert(lex_le(gs[i], gs[j - 1]));
            } else {
                lemma_lex_transitive(gs[i], x, gs[j - 1]);
            }
        } else if i == p {
            assert(r[j] == gs[j - 1]);
        } else {
            assert(r[i] == gs[i - 1] && r[j] == gs[j - 1]);
        }
    }
}

/// The workspace marker for a `--workspace` selection, or `None` when the
/// selection holds no name once trimmed. One name is the marker itself; several
/// give `w-` and a 6-character hash of the names sorted and joined by commas,
/// so the same selection yields the same marker in any order and on any run.
pub fn set_workspace_marker_from_list(values: &[String]) -> (r: Option<String>)
    ensures
        kept_values(string_views(values@)).len() == 0 <==> r is None,
        kept_values(string_views(values@)).len() == 1 ==> (r matches Some(m) && m@ == kept_values(
            string_views(values@),
        )[0]),
        kept_values(string_views(values@)).len() >= 2 ==> exists|s: Seq<Seq<char>>|
            #![trigger selection_marker(s)]
            lex_sorted(s) && s.to_multiset() == kept_values(string_views(values@)).to_multiset()
                && (r matches Some(m) && m@ == selection_marker(s)),
{
    broadcast use vstd::seq_lib::group_to_multiset_ensures;

    let ghost vs = string_views(values@);
    let mut sorted: Vec<Vec<char>> = Vec::new();
    let ghost mut gs: Seq<Seq<char>> = Seq::empty();
    let mut first: Option<String> = None;
    let mut i: usize = 0;
    assert(vs.take(0) =~= Seq::<Seq<char>>::empty());
    while i < values.len()
        invariant
            vs == string_views(values@),
            i <= values.len(),
            gs.len() == sorted@.len(),
            forall|k: int| 0 <= k < gs.len() ==> (#[trigger] sorted@[k])@ == gs[k],
            gs.to_multiset() == kept_values(vs.take(i as int)).to_multiset(),
            gs.len() == kept_values(vs.take(i as int)).len(),
            lex_sorted(gs),
            first is None <==> kept_values(vs.take(i as int)).len() == 0,
            first matches Some(f) ==> f@ == kept_values(vs.take(i as int))[0],
        decreases values.len() - i,
    {
        let ghost before = vs.take(i as int);
        assert(vs.take(i as int + 1).drop_last() =~= before);
        assert(vs.take(i as int + 1).last() == values@[i as int]@);
        proof { vstd::seq_lib::to_multiset_len(gs); }
        let t = trim_str(values[i].as_str());
        let tn = t.as_str().unicode_len();
        if tn > 0 {
            let x = chars_of(t.as_str());
            let mut p: usize = 0;
            while p < sorted.len() && lex_le_vec(&sorted[p], &x)
                invariant
                    p <= sorted@.len(),
                    gs.len() == sorted@.len(),
                    forall|k: int| 0 <= k < gs.len() ==> (#[trigger] sorted@[k])@ == gs[k],
                    x@ == t@,
                    forall|q: int| 0 <= q < p ==> lex_le(#[trigger] gs[q], x@),
                decreases sorted@.len() - p,
            {
                p = p + 1;
            }
            proof {
                if p < gs.len() {
                    lemma_lex_total(gs[p as int], x@);
                    assert forall|q: int| p <= q < gs.len() implies lex_le(
                        x@,
                        #[trigger] gs[q],
                    ) by {
                        if q > p {
                            lemma_lex_transitive(x@, gs[p as int], gs[q]);
                        }
                    }
                }
                lemma_insert_sorted(gs, p as int, x@);
            }
            sorted.insert(p, x);
            proof {
                let ng = gs.insert(p as int, t@);
                assert forall|k: int| 0 <= k < ng.len() implies (#[trigger] sorted@[k])@ == ng[k] by {
                    if k < p {
                        assert(ng[k] == gs[k]);
                    } else if k > p {
                        assert(ng[k] == gs[k - 1]);
                    }
                }
                vstd::seq_lib::to_multiset_insert(gs, p as int, t@);
                vstd::seq_lib::to_multiset_build(kept_values(before), t@);
                assert(kept_values(vs.take(i as int + 1)) == kept_values(before).push(t@));
                gs = ng;
            }
            if first.is_none() {
                first = Some(t);
            }
        }
        i = i + 1;
    }
    assert(vs.take(values.len() as int) =~= vs);
    let ghost kept = kept_values(vs);
    if sorted.len() == 0 {
        return None;
    }
    if sorted.len() == 1 {
        return first;
    }
    let mut joined = String::new();
    let mut k: usize = 0;
    while k < sorted.len()
        invariant
            k <= sorted@.len(),
            gs.len() == sorted@.len(),
            forall|q: int| 0 <= q < gs.len() ==> (#[trigger] sorted@[q])@ == gs[q],
            joined@ == join_with(gs.take(k as int), ","@),
        decreases sorted@.len() - k,
    {
        proof {
            reveal_strlit(",");
        }
        let ghost prev = joined@;
        if k > 0 {
            joined.push(',');
        }
        let part = string_of(&sorted[k]);
        push_str(&mut joined, part.as_str());
        proof {
            let tk = gs.take(k as int + 1);
            assert(tk.drop_last() =~= gs.take(k as int));
            assert(tk.last() == gs[k as int]);
            if k == 0 {
                assert(joined@ =~= gs[0]);
            } else {
                assert(joined@ =~= prev + ","@ + gs[k as int]);
            }
        }
        k = k + 1;
    }
    assert(gs.take(gs.len() as int) =~= gs);
    let h = short_hex_hash(joined.as_str());
    let mut m = String::new();
    push_str(&mut m, "w-");
    push_str(&mut m, h.as_str());
    assert(m@ =~= selection_marker(gs));
    Some(m)
}


/// The marker of a selection depends on which names it holds, not on their
/// order: two selections whose trimmed names are the same multiset get the
/// same marker, whichever sorted arrangement each call settled on.
pub proof fn law_marker_ignores_order(
    a: Seq<Seq<char>>,
    b: Seq<Seq<char>>,
    sa: Seq<Seq<char>>,
    sb: Seq<Seq<char>>,
)
    requires
        kept_values(a).to_multiset() == kept_values(b).to_multiset(),
        lex_sorted(sa),
        sa.to_multiset() == kept_values(a).to_multiset(),
        lex_sorted(sb),
        sb.to_multiset() == kept_values(b).to_multiset(),
    ensures
        sa == sb,
        selection_marker(sa) == selection_marker(sb),
{
    lemma_sorted_unique(sa, sb);
}

/// The sticky-comment marker id, by precedence: an explicit comment id that is
/// not blank, as given; else `fallow-results-` and the sanitized workspace
/// marker when one is set and not blank; else `fallow-results`.
pub open spec fn sticky_marker_text(
    comment_id: Option<Seq<char>>,
    workspace: Option<Seq<char>>,
) -> Seq<char> {
    if comment_id is Some && trim(comment_id->0).len() > 0 {
        comment_id->0
    } else if workspace is Some && trim(workspace->0).len() > 0 {
        "fallow-results-"@ + sanitized(trim(workspace->0))
    } else {
        "fallow-results"@
    }
}

/// The process's workspace marker after a `--workspace` selection, given the
/// marker `current` it already holds: the marker is set once, so a held
/// marker is never replaced, and a selection with no name once trimmed sets
/// nothing; otherwise it is the selection's marker.
pub fn next_workspace_marker(current: Option<String>, values: &[String]) -> (r: Option<String>)
    ensures
        current is Some ==> r == current,
        kept_values(string_views(values@)).len() == 0 ==> r == current,
        current is None && kept_values(string_views(values@)).len() == 1 ==> (r matches Some(m) && m@
            == kept_values(string_views(values@))[0]),
        current is None && kept_values(string_views(values@)).len() >= 2 ==> exists|s: Seq<Seq<char>>|
            #![trigger selection_marker(s)]
            lex_sorted(s) && s.to_multiset() == kept_values(string_views(values@)).to_multiset()
                && (r matches Some(m) && m@ == selection_marker(s)),
{
    match current {
        Some(m) => Some(m),
        None => set_workspace_marker_from_list(values),
    }
}

/// The marker id of the sticky comment. `comment_id` is the value of
/// `FALLOW_COMMENT_ID` and `workspace` the marker set from `--workspace`, when
/// there are any; a per-workspace suffix keeps parallel jobs on one PR from
/// editing each other's comment.
pub fn sticky_marker_id(comment_id: Option<&str>, workspace: Option<&str>) -> (r: String)
    ensures
        r@ == sticky_marker_text(
            match comment_id {
                Some(c) => Some(c@),
                None => None,
            },
            match workspace {
                Some(w) => Some(w@),
                None => None,
            },
        ),
{
    if let Some(value) = comment_id {
        let t = trim_str(value);
        if t.as_str().unicode_len() > 0 {
            let mut r = String::new();
            push_str(&mut r, value);
            assert(r@ =~= value@);
            return r;
        }
    }
    if let Some(value) = workspace {
        let t = trim_str(value);
        if t.as_str().unicode_len() > 0 {
            let segment = sanitize_marker_segment(t.as_str());
            let mut r = String::new();
            push_str(&mut r, "fallow-results-");
            push_str(&mut r, segment.as_str());
            assert(r@ =~= "fallow-results-"@ + sanitized(trim(value@)));
            return r;
        }
    }
    let mut r = String::new();
    push_str(&mut r, "fallow-results");
    assert(r@ =~= "fallow-results"@);
    r
}

/// How the gates of a pull request concluded.
#[derive(Debug, Clone, Copy, PartialEq, Eq, Structural)]
pub enum PrDecisionConclusion {
    Success,
    Failure,
    Neutral,
    Skipped,
}

/// The conclusion of a run judged by its findings alone: clean passes, and
/// findings stay neutral, so an advisory check never becomes a merge blocker.
pub fn issue_decision_conclusion(is_clean: bool) -> (r: PrDecisionConclusion)
    ensures
        r == (if is_clean {
            PrDecisionConclusion::Success
        } else {
            PrDecisionConclusion::Neutral
        }),
{
    if is_clean {
        PrDecisionConclusion::Success
    } else {
        PrDecisionConclusion::Neutral
    }
}

/// The short label of a conclusion.
pub open spec fn decision_label_text(conclusion: PrDecisionConclusion) -> Seq<char> {
    match conclusion {
        PrDecisionConclusion::Success => "pass"@,
        PrDecisionConclusion::Failure => "fail"@,
        PrDecisionConclusion::Neutral => "warn"@,
        PrDecisionConclusion::Skipped => "skipped"@,
    }
}

/// The short label of a conclusion: `pass`, `fail`, `warn` or `skipped`.
pub fn decision_summary_label(conclusion: PrDecisionConclusion) -> (r: &'static str)
    ensures
        r@ == decision_label_text(conclusion),
{
    match conclusion {
        PrDecisionConclusion::Success => "pass",
        PrDecisionConclusion::Failure => "fail",
        PrDecisionConclusion::Neutral => "warn",
        PrDecisionConclusion::Skipped => "skipped",
    }
}

/// `count` and the noun that agrees with it.
pub open spec fn count_text(count: nat, singular: Seq<char>, plural: Seq<char>) -> Seq<char> {
    decimal(count) + " "@ + (if count == 1 {
        singular
    } else {
        plural
    })
}

/// `count` and the singular or plural noun, as `1 finding` or `3 findings`.
pub fn count_label(count: usize, singular: &str, plural: &str) -> (r: String)
    ensures
        r@ == count_text(count as nat, singular@, plural@),
{
    let mut r = String::new();
    push_decimal(&mut r, count as u64);
    r.push(' ');
    if count == 1 {
        push_str(&mut r, singular);
    } else {
        push_str(&mut r, plural);
    }
    proof {
        reveal_strlit(" ");
    }
    assert(r@ =~= count_text(count as nat, singular@, plural@));
    r
}

/// The one-line summary of a PR decision, with the status note quoted below
/// it when there is one.
pub open spec fn decision_summary_text(
    conclusion: PrDecisionConclusion,
    issue_count: nat,
    status_message: Option<Seq<char>>,
) -> Seq<char> {
    let findings = count_text(issue_count, "finding"@, "findings"@);
    let summary = if issue_count == 0 {
        match conclusion {
            PrDecisionConclusion::Failure => "Fallow quality gates failed without renderable findings."@,
            PrDecisionConclusion::Neutral => "Fallow needs review without renderable findings."@,
            _ => "Fallow found no actionable PR findings."@,
        }
    } else {
        match conclusion {
            PrDecisionConclusion::Failure => "Fallow quality gates failed with "@ + findings + "."@,
            PrDecisionConclusion::Neutral => "Fallow found "@ + findings + " for review."@,
            _ => "Fallow found "@ + findings + "."@,
        }
    };
    match status_message {
        Some(m) => summary + "\n\n> "@ + m,
        None => summary,
    }
}

/// The markdown summary of a PR decision.
pub fn decision_summary_markdown(
    conclusion: PrDecisionConclusion,
    issue_count: usize,
    status_message: Option<&str>,
) -> (r: String)
    ensures
        r@ == decision_summary_text(
            conclusion,
            issue_count as nat,
            match status_message {
                Some(m) => Some(m@),
                None => None,
            },
        ),
{
    let mut r = String::new();
    if issue_count == 0 {
        match conclusion {
            PrDecisionConclusion::Failure => push_str(
                &mut r,
                "Fallow quality gates failed without renderable findings.",
            ),
            PrDecisionConclusion::Neutral => push_str(
                &mut r,
                "Fallow needs review without renderable findings.",
            ),
            _ => push_str(&mut r, "Fallow found no actionable PR findings."),
        }
    } else {
        let findings = count_label(issue_count, "finding", "findings");
        match conclusion {
            PrDecisionConclusion::Failure => {
                push_str(&mut r, "Fallow quality gates failed with ");
                push_str(&mut r, findings.as_str());
                push_str(&mut r, ".");
            },
            PrDecisionConclusion::Neutral => {
                push_str(&mut r, "Fallow found ");
                push_str(&mut r, findings.as_str());
                push_str(&mut r, " for review.");
            },
            _ => {
                push_str(&mut r, "Fallow found ");
                push_str(&mut r, findings.as_str());
                push_str(&mut r, ".");
            },
        }
    }
    let ghost summary = r@;
    if let Some(message) = status_message {
        push_str(&mut r, "\n\n> ");
        push_str(&mut r, message);
    }
    assert(r@ =~= decision_summary_text(
        conclusion,
        issue_count as nat,
        match status_message {
            Some(m) => Some(m@),
            None => None,
        },
    ));
    r
}

/// The level of a decision annotation.
#[derive(Debug, Clone, Copy, PartialEq, Eq, Structural)]
pub enum PrDecisionAnnotationLevel {
    Failure,
    Warning,
    Notice,
}

/// The annotation level of a CodeClimate severity: `blocker`, `critical` and
/// `major` fail, `minor` warns, anything else is a notice.
pub open spec fn decision_level_of(severity: Seq<char>) -> PrDecisionAnnotationLevel {
    if severity == "blocker"@ || severity == "critical"@ || severity == "major"@ {
        PrDecisionAnnotationLevel::Failure
    } else if severity == "minor"@ {
        PrDecisionAnnotationLevel::Warning
    } else {
        PrDecisionAnnotationLevel::Notice
    }
}

/// The annotation level of a CodeClimate severity.
pub fn decision_level_from_severity(severity: &str) -> (r: PrDecisionAnnotationLevel)
    ensures
        r == decision_level_of(severity@),
{
    if str_eq(severity, "blocker") || str_eq(severity, "critical") || str_eq(severity, "major") {
        PrDecisionAnnotationLevel::Failure
    } else if str_eq(severity, "minor") {
        PrDecisionAnnotationLevel::Warning
    } else {
        PrDecisionAnnotationLevel::Notice
    }
}

/// A finding's annotation fails exactly when its Code Climate severity is
/// `blocker`, `critical` or `major` (the severities that fail an inline
/// review's check), warns exactly when it is `minor`, and is a notice for
/// anything else.
pub proof fn law_annotations_fail_exactly_on_blocking_severities(severity: Seq<char>)
    ensures
        decision_level_of(severity) == PrDecisionAnnotationLevel::Failure <==> (severity == "blocker"@
            || severity == "critical"@ || severity == "major"@),
        decision_level_of(severity) == PrDecisionAnnotationLevel::Failure <==> crate::review::blocking_severity(
            severity,
        ),
        decision_level_of(severity) == PrDecisionAnnotationLevel::Warning <==> severity == "minor"@,
        decision_level_of(severity) == PrDecisionAnnotationLevel::Notice <==> !(severity == "blocker"@
            || severity == "critical"@ || severity == "major"@ || severity == "minor"@),
{
    reveal_strlit("blocker");
    reveal_strlit("critical");
    reveal_strlit("major");
    reveal_strlit("minor");
    assert("minor"@ != "major"@) by {
        assert("minor"@[1] != "major"@[1]);
    }
    assert("minor"@ != "blocker"@) by {
        assert("minor"@.len() != "blocker"@.len());
    }
    assert("minor"@ != "critical"@) by {
        assert("minor"@.len() != "critical"@.len());
    }
}

/// A rendered comment body with the status note appended as a blockquote,
/// which is the body both integrations post.
pub fn with_status_note(body: String, status_message: Option<&str>) -> (r: String)
    ensures
        r@ == match status_message {
            Some(m) => body@ + "\n\n> "@ + m@,
            None => body@,
        },
{
    let mut r = body;
    if let Some(message) = status_message {
        push_str(&mut r, "\n\n> ");
        push_str(&mut r, message);
    }
    r
}


/// The layout of the sticky comment.
#[derive(Debug, Clone, Copy, PartialEq, Eq, Structural)]
pub enum PrCommentLayout {
    Default,
    Compact,
    GateOnly,
    Details,
}

/// The layout `FALLOW_PR_COMMENT_LAYOUT` asks for: `compact`, `gate-only` or
/// `details`; anything else, or nothing, is the default layout.
pub fn pr_comment_layout_from_env(value: Option<&str>) -> (r: PrCommentLayout)
    ensures
        r == match value {
            Some(v) => if v@ == "compact"@ {
                PrCommentLayout::Compact
            } else if v@ == "gate-only"@ {
                PrCommentLayout::GateOnly
            } else if v@ == "details"@ {
                PrCommentLayout::Details
            } else {
                PrCommentLayout::Default
            },
            None => PrCommentLayout::Default,
        },
{
    match value {
        Some(v) => if str_eq(v, "compact") {
            PrCommentLayout::Compact
        } else if str_eq(v, "gate-only") {
            PrCommentLayout::GateOnly
        } else if str_eq(v, "details") {
            PrCommentLayout::Details
        } else {
            PrCommentLayout::Default
        },
        None => PrCommentLayout::Default,
    }
}

} // verus!
