//! The order CI findings are rendered in, `(path, line, fingerprint)`, and
//! the summary filter's split of project-level findings from the findings a
//! diff can filter: after the split and the merge the order is restored.
use vstd::prelude::*;
use crate::text::{
    chars_of, copy_str, lemma_lex_antisymmetric, lemma_lex_reflexive, lemma_lex_total,
    lemma_lex_transitive, lex_le, lex_le_vec, lists, vec_eq,
};

verus! {

/// One CI finding, as the PR comment, review and summary surfaces carry it.
#[derive(Debug)]
pub struct CiIssue {
    pub path: String,
    pub line: u64,
    pub end_line: Option<u64>,
    pub rule_id: String,
    pub description: String,
    pub severity: String,
    pub fingerprint: String,
}

/// The sort key of a finding.
pub open spec fn issue_key(i: CiIssue) -> (Seq<char>, u64, Seq<char>) {
    (i.path@, i.line, i.fingerprint@)
}

/// `a` sorts no later than `b`: by path, then line, then fingerprint.
pub open spec fn key_le(a: (Seq<char>, u64, Seq<char>), b: (Seq<char>, u64, Seq<char>)) -> bool {
    if a.0 != b.0 {
        lex_le(a.0, b.0)
    } else if a.1 != b.1 {
        a.1 < b.1
    } else {
        lex_le(a.2, b.2)
    }
}

proof fn lemma_key_reflexive(a: (Seq<char>, u64, Seq<char>))
    ensures
        key_le(a, a),
{
    lemma_lex_reflexive(a.2);
}

proof fn lemma_key_total(a: (Seq<char>, u64, Seq<char>), b: (Seq<char>, u64, Seq<char>))
    ensures
        key_le(a, b) || key_le(b, a),
{
    lemma_lex_total(a.0, b.0);
    lemma_lex_total(a.2, b.2);
}

proof fn lemma_key_transitive(
    a: (Seq<char>, u64, Seq<char>),
    b: (Seq<char>, u64, Seq<char>),
    c: (Seq<char>, u64, Seq<char>),
)
    requires
        key_le(a, b),
        key_le(b, c),
    ensures
        key_le(a, c),
{
    if a.0 != b.0 {
        if b.0 != c.0 {
            lemma_lex_transitive(a.0, b.0, c.0);
            if a.0 == c.0 {
                lemma_lex_antisymmetric(a.0, b.0);
            }
        }
    } else if b.0 == c.0 {
        if a.1 == b.1 && b.1 == c.1 {
            lemma_lex_transitive(a.2, b.2, c.2);
        }
    }
}

/// `order` lists every position of `keys` once, sorted by key, positions
/// with equal keys in their original order.
pub open spec fn stable_key_order(keys: Seq<(Seq<char>, u64, Seq<char>)>, order: Seq<usize>) -> bool {
    &&& order.len() == keys.len()
    &&& forall|i: int| 0 <= i < order.len() ==> #[trigger] order[i] < keys.len()
    &&& forall|i: int, j: int| 0 <= i < j < order.len() ==> #[trigger] order[i] != #[trigger] order[j]
    &&& forall|m: int| 0 <= m < keys.len() ==> #[trigger] lists(order, m)
    &&& forall|i: int, j: int|
        0 <= i < j < order.len() ==> key_le(keys[#[trigger] order[i] as int], keys[#[trigger] order[j] as int])
            && (keys[order[i] as int] == keys[order[j] as int] ==> order[i] < order[j])
}

/// The keys of a list of findings.
pub open spec fn issue_keys(issues: Seq<CiIssue>) -> Seq<(Seq<char>, u64, Seq<char>)> {
    issues.map_values(|i: CiIssue| issue_key(i))
}

/// Whether the finding at position `x` sorts no later than the one at `y`.
fn issue_le(paths: &Vec<Vec<char>>, lines: &Vec<u64>, prints: &Vec<Vec<char>>, x: usize, y: usize) -> (r: bool)
    requires
        x < paths@.len(),
        y < paths@.len(),
        paths@.len() == lines@.len(),
        paths@.len() == prints@.len(),
    ensures
        r == key_le((paths@[x as int]@, lines@[x as int], prints@[x as int]@), (
            paths@[y as int]@,
            lines@[y as int],
            prints@[y as int]@,
        )),
{
    if !vec_eq(&paths[x], &paths[y]) {
        lex_le_vec(&paths[x], &paths[y])
    } else if lines[x] != lines[y] {
        lines[x] < lines[y]
    } else {
        lex_le_vec(&prints[x], &prints[y])
    }
}

/// The positions of `issues` in stable `(path, line, fingerprint)` order (an
/// insertion sort).
fn stable_issue_order(issues: &Vec<CiIssue>) -> (order: Vec<usize>)
    ensures
        stable_key_order(issue_keys(issues@), order@),
{
    let ghost keys = issue_keys(issues@);
    let n = issues.len();
    let mut paths: Vec<Vec<char>> = Vec::new();
    let mut lines: Vec<u64> = Vec::new();
    let mut prints: Vec<Vec<char>> = Vec::new();
    let mut k: usize = 0;
    while k < n
        invariant
            n == issues@.len(),
            k <= n,
            paths@.len() == k,
            lines@.len() == k,
            prints@.len() == k,
            forall|q: int|
                0 <= q < k ==> (#[trigger] paths@[q])@ == issues@[q].path@ && lines@[q] == issues@[q].line
                    && prints@[q]@ == issues@[q].fingerprint@,
        decreases n - k,
    {
        paths.push(chars_of(issues[k].path.as_str()));
        lines.push(issues[k].line);
        prints.push(chars_of(issues[k].fingerprint.as_str()));
        k = k + 1;
    }
    assert forall|q: int| 0 <= q < n implies keys[q] == (paths@[q]@, lines@[q], prints@[q]@) by {}
    let mut order: Vec<usize> = Vec::new();
    let mut i: usize = 0;
    while i < n
        invariant
            n == issues@.len(),
            keys == issue_keys(issues@),
            paths@.len() == n,
            lines@.len() == n,
            prints@.len() == n,
            forall|q: int| 0 <= q < n ==> #[trigger] keys[q] == (paths@[q]@, lines@[q], prints@[q]@),
            i <= n,
            order@.len() == i,
            forall|q: int| 0 <= q < order@.len() ==> #[trigger] order@[q] < i,
            forall|a: int, b: int| 0 <= a < b < order@.len() ==> #[trigger] order@[a] != #[trigger] order@[b],
            forall|m: int| 0 <= m < i ==> #[trigger] lists(order@, m),
            forall|a: int, b: int|
                0 <= a < b < order@.len() ==> key_le(keys[#[trigger] order@[a] as int], keys[#[trigger] order@[b] as int])
                    && (keys[order@[a] as int] == keys[order@[b] as int] ==> order@[a] < order@[b]),
        decreases n - i,
    {
        let mut p: usize = 0;
        while p < order.len() && issue_le(&paths, &lines, &prints, order[p], i)
            invariant
                n == issues@.len(),
                paths@.len() == n,
                lines@.len() == n,
                prints@.len() == n,
                forall|q: int| 0 <= q < n ==> #[trigger] keys[q] == (paths@[q]@, lines@[q], prints@[q]@),
                i < n,
                p <= order@.len(),
                forall|q: int| 0 <= q < order@.len() ==> #[trigger] order@[q] < i,
                forall|q: int| 0 <= q < p ==> key_le(keys[#[trigger] order@[q] as int], keys[i as int]),
            decreases order@.len() - p,
        {
            assert(keys[order@[p as int] as int] == (
                paths@[order@[p as int] as int]@,
                lines@[order@[p as int] as int],
                prints@[order@[p as int] as int]@,
            ));
            p = p + 1;
        }
        let ghost old_order = order@;
        proof {
            assert(keys[i as int] == (paths@[i as int]@, lines@[i as int], prints@[i as int]@));
            if p < old_order.len() {
                let op = old_order[p as int] as int;
                assert(keys[op] == (paths@[op]@, lines@[op], prints@[op]@));
                assert(!key_le(keys[op], keys[i as int]));
                lemma_key_total(keys[op], keys[i as int]);
            }
        }
        order.insert(p, i);
        proof {
            let o = order@;
            let ki = keys[i as int];
            assert(o == old_order.insert(p as int, i));
            assert forall|a: int, b: int| 0 <= a < b < o.len() implies #[trigger] o[a] != #[trigger] o[b] by {
                if a < p && b < p {
                } else if a < p && b == p {
                } else if a < p {
                    assert(o[b] == old_order[b - 1]);
                } else if a == p {
                    assert(o[b] == old_order[b - 1]);
                } else {
                    assert(o[a] == old_order[a - 1] && o[b] == old_order[b - 1]);
                }
            }
            assert forall|a: int, b: int| 0 <= a < b < o.len() implies key_le(
                keys[#[trigger] o[a] as int],
                keys[#[trigger] o[b] as int],
            ) && (keys[o[a] as int] == keys[o[b] as int] ==> o[a] < o[b]) by {
                if b < p {
                    assert(o[a] == old_order[a] && o[b] == old_order[b]);
                } else if b == p {
                    assert(o[a] == old_order[a]);
                } else if a < p {
                    assert(o[a] == old_order[a] && o[b] == old_order[b - 1]);
                } else if a == p {
                    assert(o[b] == old_order[b - 1]);
                    let op = old_order[p as int] as int;
                    let ob = old_order[b - 1] as int;
                    assert(!key_le(keys[op], ki));
                    assert(key_le(ki, keys[op]));
                    if p < b - 1 {
                        assert(key_le(keys[op], keys[ob]));
                        lemma_key_transitive(ki, keys[op], keys[ob]);
                        if keys[ob] == ki {
                            assert(key_le(keys[op], ki));
                        }
                    } else {
                        if keys[ob] == ki {
                            lemma_key_reflexive(ki);
                        }
                    }
                } else {
                    assert(o[a] == old_order[a - 1] && o[b] == old_order[b - 1]);
                }
            }
            assert forall|m: int| 0 <= m < i + 1 implies #[trigger] lists(o, m) by {
                if m == i {
                    assert(o[p as int] == m);
                } else {
                    assert(lists(old_order, m));
                    let q0 = choose|q: int| 0 <= q < old_order.len() && old_order[q] == m;
                    if q0 < p {
                        assert(o[q0] == m);
                    } else {
                        assert(o[q0 + 1] == m);
                    }
                }
            }
            assert forall|q: int| 0 <= q < o.len() implies #[trigger] o[q] < i + 1 by {
                if q < p {
                    assert(o[q] == old_order[q]);
                } else if q > p {
                    assert(o[q] == old_order[q - 1]);
                }
            }
        }
        i = i + 1;
    }
    order
}

/// What a finding holds, as plain values.
pub open spec fn issue_view(i: CiIssue) -> (Seq<char>, u64, Option<u64>, Seq<char>, Seq<char>, Seq<char>, Seq<char>) {
    (i.path@, i.line, i.end_line, i.rule_id@, i.description@, i.severity@, i.fingerprint@)
}

/// What each finding holds, in order.
pub open spec fn issue_views(s: Seq<CiIssue>) -> Seq<(Seq<char>, u64, Option<u64>, Seq<char>, Seq<char>, Seq<char>, Seq<char>)> {
    s.map_values(|i: CiIssue| issue_view(i))
}

/// `out` is `issues` in stable `(path, line, fingerprint)` order.
pub open spec fn sorted_issues(out: Seq<CiIssue>, issues: Seq<CiIssue>) -> bool {
    exists|order: Seq<usize>|
        stable_key_order(issue_keys(issues), order) && out.len() == order.len() && forall|k: int|
            0 <= k < out.len() ==> #[trigger] issue_view(out[k]) == issue_view(issues[order[k] as int])
}

/// A new finding holding what `i` holds.
pub fn copy_issue(i: &CiIssue) -> (r: CiIssue)
    ensures
        issue_view(r) == issue_view(*i),
{
    CiIssue {
        path: copy_str(i.path.as_str()),
        line: i.line,
        end_line: i.end_line,
        rule_id: copy_str(i.rule_id.as_str()),
        description: copy_str(i.description.as_str()),
        severity: copy_str(i.severity.as_str()),
        fingerprint: copy_str(i.fingerprint.as_str()),
    }
}

/// The findings in stable `(path, line, fingerprint)` order.
pub fn sort_issues(issues: &Vec<CiIssue>) -> (r: Vec<CiIssue>)
    ensures
        sorted_issues(r@, issues@),
{
    let order = stable_issue_order(issues);
    let mut out: Vec<CiIssue> = Vec::new();
    let mut q: usize = 0;
    while q < order.len()
        invariant
            q <= order@.len(),
            stable_key_order(issue_keys(issues@), order@),
            out@.len() == q,
            forall|k: int| 0 <= k < q ==> #[trigger] issue_view(out@[k]) == issue_view(issues@[order@[k] as int]),
        decreases order@.len() - q,
    {
        assert(order@[q as int] < issue_keys(issues@).len());
        out.push(copy_issue(&issues[order[q]]));
        q = q + 1;
    }
    out
}

/// The findings whose flag is `want`, in order.
pub open spec fn flagged(issues: Seq<CiIssue>, flags: Seq<bool>, want: bool) -> Seq<CiIssue>
    decreases issues.len(),
{
    if issues.len() == 0 {
        Seq::empty()
    } else {
        let prev = flagged(issues.drop_last(), flags, want);
        if flags[issues.len() - 1] == want {
            prev.push(issues.last())
        } else {
            prev
        }
    }
}

/// Split the findings into the project-level ones (flag set: dependency and
/// catalog hygiene a diff rarely touches) and the ones a diff can filter,
/// each in its original order.
pub fn partition_project_level(issues: &Vec<CiIssue>, project_level: &Vec<bool>) -> (r: (
    Vec<CiIssue>,
    Vec<CiIssue>,
))
    requires
        project_level@.len() == issues@.len(),
    ensures
        issue_views(r.0@) == issue_views(flagged(issues@, project_level@, true)),
        issue_views(r.1@) == issue_views(flagged(issues@, project_level@, false)),
{
    let mut project: Vec<CiIssue> = Vec::new();
    let mut rest: Vec<CiIssue> = Vec::new();
    let mut i: usize = 0;
    while i < issues.len()
        invariant
            i <= issues@.len(),
            project_level@.len() == issues@.len(),
            issue_views(project@) == issue_views(flagged(issues@.take(i as int), project_level@, true)),
            issue_views(rest@) == issue_views(flagged(issues@.take(i as int), project_level@, false)),
        decreases issues@.len() - i,
    {
        let ghost t = issues@.take(i as int + 1);
        let ghost pv = issue_views(project@);
        let ghost rv = issue_views(rest@);
        proof {
            assert(t.drop_last() =~= issues@.take(i as int));
            assert(t.last() == issues@[i as int]);
        }
        let c = copy_issue(&issues[i]);
        if project_level[i] {
            project.push(c);
            assert(issue_views(project@) =~= pv.push(issue_view(issues@[i as int])));
            assert(issue_views(flagged(t, project_level@, true)) =~= issue_views(flagged(
                issues@.take(i as int),
                project_level@,
                true,
            )).push(issue_view(issues@[i as int])));
        } else {
            rest.push(c);
            assert(issue_views(rest@) =~= rv.push(issue_view(issues@[i as int])));
            assert(issue_views(flagged(t, project_level@, false)) =~= issue_views(flagged(
                issues@.take(i as int),
                project_level@,
                false,
            )).push(issue_view(issues@[i as int])));
        }
        i = i + 1;
    }
    assert(issues@.take(issues@.len() as int) =~= issues@);
    (project, rest)
}

/// The summary's findings: those the diff filter kept, then the project-level
/// ones, restored to `(path, line, fingerprint)` order.
pub fn merge_summary(kept: &Vec<CiIssue>, project_level: &Vec<CiIssue>) -> (r: Vec<CiIssue>)
    ensures
        exists|all: Seq<CiIssue>|
            issue_views(all) == issue_views(kept@) + issue_views(project_level@) && sorted_issues(r@, all),
{
    let mut all: Vec<CiIssue> = Vec::new();
    let mut i: usize = 0;
    while i < kept.len()
        invariant
            i <= kept@.len(),
            issue_views(all@) == issue_views(kept@).take(i as int),
        decreases kept@.len() - i,
    {
        let ghost prev = issue_views(all@);
        all.push(copy_issue(&kept[i]));
        assert(issue_views(all@) =~= prev.push(issue_view(kept@[i as int])));
        assert(issue_views(kept@).take(i as int + 1) =~= issue_views(kept@).take(i as int).push(
            issue_view(kept@[i as int]),
        ));
        i = i + 1;
    }
    assert(issue_views(kept@).take(kept@.len() as int) =~= issue_views(kept@));
    let mut j: usize = 0;
    while j < project_level.len()
        invariant
            j <= project_level@.len(),
            issue_views(all@) == issue_views(kept@) + issue_views(project_level@).take(j as int),
        decreases project_level@.len() - j,
    {
        let ghost prev = issue_views(all@);
        all.push(copy_issue(&project_level[j]));
        assert(issue_views(all@) =~= prev.push(issue_view(project_level@[j as int])));
        assert(issue_views(project_level@).take(j as int + 1) =~= issue_views(project_level@).take(
            j as int,
        ).push(issue_view(project_level@[j as int])));
        j = j + 1;
    }
    assert(issue_views(project_level@).take(project_level@.len() as int) =~= issue_views(
        project_level@,
    ));
    sort_issues(&all)
}

/// Some finding of `out` holds `v`.
pub open spec fn holds_view(
    out: Seq<CiIssue>,
    v: (Seq<char>, u64, Option<u64>, Seq<char>, Seq<char>, Seq<char>, Seq<char>),
) -> bool {
    exists|q: int| 0 <= q < out.len() && #[trigger] issue_view(out[q]) == v
}

/// Sorting loses no finding and leaves them in render order: by path, then
/// line, then fingerprint.
pub proof fn law_sorted_findings_are_complete_and_ordered(out: Seq<CiIssue>, issues: Seq<CiIssue>)
    requires
        sorted_issues(out, issues),
    ensures
        out.len() == issues.len(),
        forall|k: int| 0 <= k < issues.len() ==> #[trigger] holds_view(out, issue_view(issues[k])),
        forall|a: int, b: int| 0 <= a < b < out.len() ==> key_le(issue_key(#[trigger] out[a]), issue_key(#[trigger] out[b])),
{
    let order = choose|order: Seq<usize>|
        stable_key_order(issue_keys(issues), order) && out.len() == order.len() && forall|k: int|
            0 <= k < out.len() ==> #[trigger] issue_view(out[k]) == issue_view(issues[order[k] as int]);
    assert forall|k: int| 0 <= k < issues.len() implies #[trigger] holds_view(out, issue_view(issues[k])) by {
        assert(lists(order, k));
        let q = choose|q: int| 0 <= q < order.len() && order[q] == k;
        assert(issue_view(out[q]) == issue_view(issues[k]));
    }
    assert forall|a: int, b: int| 0 <= a < b < out.len() implies key_le(issue_key(#[trigger] out[a]), issue_key(#[trigger] out[b])) by {
        assert(issue_view(out[a]) == issue_view(issues[order[a] as int]));
        assert(issue_view(out[b]) == issue_view(issues[order[b] as int]));
        assert(issue_keys(issues)[order[a] as int] == issue_key(issues[order[a] as int]));
        assert(issue_keys(issues)[order[b] as int] == issue_key(issues[order[b] as int]));
    }
}

} // verus!
