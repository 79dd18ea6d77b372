//! One reader for an envelope's request outcomes, shared by every surface that
//! states what a run was asked to do: whether each narrowing request or
//! requested file took effect. An unknown status never counts as applied, and
//! what an unapplied request means is read off what it affects, never off its
//! name.
use vstd::prelude::*;
use crate::text::{
    char_vec_views, chars_of, join_strings, join_with, lex_le, lex_le_vec, push_str, sort_order,
    sorted_order, str_eq, string_views_of, vec_eq,
};

verus! {

/// A request entry as the envelope holds it; one without a text status is
/// not a request line.
pub struct RequestEntry {
    pub name: String,
    pub status: Option<String>,
    pub affects: Option<String>,
    pub reason: Option<String>,
    pub scope_size: Option<u64>,
}

/// The fate of one request.
pub struct RequestLine {
    pub name: String,
    pub status: String,
    pub affects: Option<String>,
    pub reason: Option<String>,
    pub scope_size: Option<u64>,
}

/// The entries that are request lines, in order.
pub open spec fn request_entries_kept(es: Seq<RequestEntry>) -> Seq<RequestEntry>
    decreases es.len(),
{
    if es.len() == 0 {
        Seq::empty()
    } else if es.last().status is Some {
        request_entries_kept(es.drop_last()).push(es.last())
    } else {
        request_entries_kept(es.drop_last())
    }
}

/// The text of an optional string.
pub open spec fn opt_text(o: Option<String>) -> Option<Seq<char>> {
    match o {
        Some(s) => Some(s@),
        None => None,
    }
}

/// `l` is the request line of entry `e`.
pub open spec fn request_line_of(l: RequestLine, e: RequestEntry) -> bool {
    &&& e.status matches Some(s) && l.status@ == s@
    &&& l.name@ == e.name@
    &&& opt_text(l.affects) == opt_text(e.affects)
    &&& opt_text(l.reason) == opt_text(e.reason)
    &&& l.scope_size == e.scope_size
}

fn copy_string(s: &String) -> (r: String)
    ensures
        r@ == s@,
{
    let mut r = String::new();
    push_str(&mut r, s.as_str());
    assert(r@ =~= s@);
    r
}

fn copy_opt(s: &Option<String>) -> (r: Option<String>)
    ensures
        opt_text(r) == opt_text(*s),
{
    match s {
        Some(x) => Some(copy_string(x)),
        None => None,
    }
}

/// The request lines of the entries, in wire order.
pub fn read_request_lines(entries: &Vec<RequestEntry>) -> (r: Vec<RequestLine>)
    ensures
        r@.len() == request_entries_kept(entries@).len(),
        forall|i: int| 0 <= i < r@.len() ==> request_line_of(#[trigger] r@[i], request_entries_kept(entries@)[i]),
{
    let ghost es = entries@;
    let mut out: Vec<RequestLine> = Vec::new();
    let mut i: usize = 0;
    assert(es.take(0) =~= Seq::<RequestEntry>::empty());
    while i < entries.len()
        invariant
            es == entries@,
            i <= es.len(),
            out@.len() == request_entries_kept(es.take(i as int)).len(),
            forall|k: int| 0 <= k < out@.len() ==> request_line_of(#[trigger] out@[k], request_entries_kept(es.take(i as int))[k]),
        decreases es.len() - i,
    {
        let ghost t = es.take(i as int + 1);
        proof {
            assert(t.drop_last() =~= es.take(i as int));
            assert(t.last() == es[i as int]);
        }
        let e = &entries[i];
        if let Some(status) = &e.status {
            let line = RequestLine {
                name: copy_string(&e.name),
                status: copy_string(status),
                affects: copy_opt(&e.affects),
                reason: copy_opt(&e.reason),
                scope_size: e.scope_size,
            };
            let ghost before = out@;
            out.push(line);
            proof {
                assert forall|k: int| 0 <= k < out@.len() implies request_line_of(#[trigger] out@[k], request_entries_kept(t)[k]) by {
                    if k < before.len() {
                        assert(out@[k] == before[k]);
                    }
                }
            }
        }
        i = i + 1;
    }
    assert(es.take(es.len() as int) =~= es);
    out
}

/// Whether a request was applied; any other status, known or not, is not.
pub open spec fn applied(l: RequestLine) -> bool {
    l.status@ == "applied"@
}

/// Whether the request describes the report's scope.
pub open spec fn affects_scope(l: RequestLine) -> bool {
    l.affects matches Some(a) && a@ == "scope"@
}

/// Whether the request describes a file written beside the report.
pub open spec fn withholds_artifact(l: RequestLine) -> bool {
    l.affects matches Some(a) && a@ == "artifact"@
}

/// Whether the request narrowed the run to a scope it measured as empty.
pub open spec fn applied_over_empty_scope(l: RequestLine) -> bool {
    applied(l) && affects_scope(l) && l.scope_size == Some(0u64)
}

/// A request's name, with the reason it published when it has one.
pub open spec fn request_described(l: RequestLine) -> Seq<char> {
    match l.reason {
        Some(r) => l.name@ + " ("@ + r@ + ")"@,
        None => l.name@,
    }
}

/// The descriptions of the requests that were (or were not) applied, in order.
pub open spec fn descriptions(ls: Seq<RequestLine>, want_applied: bool) -> Seq<Seq<char>>
    decreases ls.len(),
{
    if ls.len() == 0 {
        Seq::empty()
    } else if applied(ls.last()) == want_applied {
        descriptions(ls.drop_last(), want_applied).push(request_described(ls.last()))
    } else {
        descriptions(ls.drop_last(), want_applied)
    }
}

/// The clause of the applied or unapplied requests, when there are any.
pub open spec fn request_clause(ls: Seq<RequestLine>, want_applied: bool, lead: Seq<char>) -> Seq<Seq<char>> {
    if descriptions(ls, want_applied).len() == 0 {
        Seq::empty()
    } else {
        seq![lead + join_with(descriptions(ls, want_applied), ", "@)]
    }
}

/// The inventory line, with one sentence for each class of consequence that
/// actually occurred.
pub open spec fn request_summary_text(ls: Seq<RequestLine>) -> Seq<char> {
    "Request outcomes: "@ + join_with(
        request_clause(ls, false, "not applied "@) + request_clause(ls, true, "applied "@),
        "; "@,
    ) + "."@ + (if exists|i: int| 0 <= i < ls.len() && !applied(ls[i]) && affects_scope(#[trigger] ls[i]) {
        " Anything not applied means this report is wider than requested."@
    } else {
        Seq::empty()
    }) + (if exists|i: int| 0 <= i < ls.len() && !applied(ls[i]) && withholds_artifact(#[trigger] ls[i]) {
        " A requested output file was not written, so anything reading it has nothing to read; the report itself is unaffected."@
    } else {
        Seq::empty()
    }) + (if exists|i: int| 0 <= i < ls.len() && applied_over_empty_scope(#[trigger] ls[i]) {
        " A narrowing request applied over an empty scope, so this report is clean because nothing in it was analyzable; check the diff or ref this run was given."@
    } else {
        Seq::empty()
    })
}

fn describe(l: &RequestLine) -> (r: String)
    ensures
        r@ == request_described(*l),
{
    let mut r = String::new();
    push_str(&mut r, l.name.as_str());
    if let Some(reason) = &l.reason {
        push_str(&mut r, " (");
        push_str(&mut r, reason.as_str());
        push_str(&mut r, ")");
    }
    assert(r@ =~= request_described(*l));
    r
}

fn is_applied(l: &RequestLine) -> (r: bool)
    ensures
        r == applied(*l),
{
    str_eq(l.status.as_str(), "applied")
}

fn affects_is(l: &RequestLine, what: &str) -> (r: bool)
    ensures
        r == (l.affects matches Some(a) && a@ == what@),
{
    match &l.affects {
        Some(a) => str_eq(a.as_str(), what),
        None => false,
    }
}

/// Facts about the requests gathered in one pass.
struct Scan {
    unapplied: Vec<String>,
    applied: Vec<String>,
    widened: bool,
    withheld: bool,
    empty_scope: bool,
}

fn scan(lines: &Vec<RequestLine>) -> (s: Scan)
    ensures
        string_views_of(s.unapplied@) == descriptions(lines@, false),
        string_views_of(s.applied@) == descriptions(lines@, true),
        s.widened == exists|i: int| 0 <= i < lines@.len() && !applied(lines@[i]) && affects_scope(#[trigger] lines@[i]),
        s.withheld == exists|i: int| 0 <= i < lines@.len() && !applied(lines@[i]) && withholds_artifact(#[trigger] lines@[i]),
        s.empty_scope == exists|i: int| 0 <= i < lines@.len() && applied_over_empty_scope(#[trigger] lines@[i]),
{
    let ghost ls = lines@;
    let mut s = Scan { unapplied: Vec::new(), applied: Vec::new(), widened: false, withheld: false, empty_scope: false };
    let mut i: usize = 0;
    assert(ls.take(0) =~= Seq::<RequestLine>::empty());
    proof {
        reveal_strlit("scope");
        reveal_strlit("artifact");
    }
    while i < lines.len()
        invariant
            ls == lines@,
            i <= ls.len(),
            string_views_of(s.unapplied@) == descriptions(ls.take(i as int), false),
            string_views_of(s.applied@) == descriptions(ls.take(i as int), true),
            s.widened == exists|k: int| 0 <= k < i && !applied(ls[k]) && affects_scope(#[trigger] ls[k]),
            s.withheld == exists|k: int| 0 <= k < i && !applied(ls[k]) && withholds_artifact(#[trigger] ls[k]),
            s.empty_scope == exists|k: int| 0 <= k < i && applied_over_empty_scope(#[trigger] ls[k]),
        decreases ls.len() - i,
    {
        let ghost t = ls.take(i as int + 1);
        proof {
            assert(t.drop_last() =~= ls.take(i as int));
            assert(t.last() == ls[i as int]);
        }
        let l = &lines[i];
        let a = is_applied(l);
        let scope = affects_is(l, "scope");
        let artifact = affects_is(l, "artifact");
        let d = describe(l);
        if a {
            s.applied.push(d);
            if scope && l.scope_size == Some(0u64) {
                s.empty_scope = true;
            }
        } else {
            s.unapplied.push(d);
            if scope {
                s.widened = true;
            }
            if artifact {
                s.withheld = true;
            }
        }
        assert(string_views_of(s.unapplied@) =~= descriptions(t, false));
        assert(string_views_of(s.applied@) =~= descriptions(t, true));
        i = i + 1;
    }
    assert(ls.take(ls.len() as int) =~= ls);
    s
}

/// The one-line inventory of what the run was asked to do, or `None` when it
/// was asked for nothing. Informational: an unapplied request is a reviewing
/// problem, not a build failure.
pub fn summary_line(lines: &Vec<RequestLine>) -> (r: Option<String>)
    ensures
        lines@.len() == 0 <==> r is None,
        r matches Some(s) ==> s@ == request_summary_text(lines@),
{
    if lines.len() == 0 {
        return None;
    }
    let s = scan(lines);
    let mut clauses: Vec<String> = Vec::new();
    if s.unapplied.len() > 0 {
        let mut c = String::new();
        push_str(&mut c, "not applied ");
        let j = join_strings(&s.unapplied, ", ");
        push_str(&mut c, j.as_str());
        clauses.push(c);
    }
    if s.applied.len() > 0 {
        let mut c = String::new();
        push_str(&mut c, "applied ");
        let j = join_strings(&s.applied, ", ");
        push_str(&mut c, j.as_str());
        clauses.push(c);
    }
    proof {
        reveal_strlit(", ");
    }
    assert(string_views_of(clauses@) =~= request_clause(lines@, false, "not applied "@) + request_clause(lines@, true, "applied "@));
    let body = join_strings(&clauses, "; ");
    let mut r = String::new();
    push_str(&mut r, "Request outcomes: ");
    push_str(&mut r, body.as_str());
    push_str(&mut r, ".");
    if s.widened {
        push_str(&mut r, " Anything not applied means this report is wider than requested.");
    }
    if s.withheld {
        push_str(
            &mut r,
            " A requested output file was not written, so anything reading it has nothing to read; the report itself is unaffected.",
        );
    }
    if s.empty_scope {
        push_str(
            &mut r,
            " A narrowing request applied over an empty scope, so this report is clean because nothing in it was analyzable; check the diff or ref this run was given.",
        );
    }
    assert(r@ =~= request_summary_text(lines@));
    Some(r)
}

/// The same inventory as a GitHub workflow-command annotation: always a
/// notice, since the integration owns the warning for this fact.
pub fn annotation_line(lines: &Vec<RequestLine>) -> (r: Option<String>)
    ensures
        lines@.len() == 0 <==> r is None,
        r matches Some(s) ==> s@ == "::notice::Fallow: "@ + request_summary_text(lines@),
{
    match summary_line(lines) {
        Some(line) => {
            let mut r = String::new();
            push_str(&mut r, "::notice::Fallow: ");
            push_str(&mut r, line.as_str());
            Some(r)
        },
        None => None,
    }
}

/// A request whose status is anything but `applied` (including a status this
/// build does not know) is listed in the "not applied" clause, never in the
/// applied one.
pub proof fn law_unknown_status_is_not_applied(ls: Seq<RequestLine>, i: int)
    requires
        0 <= i < ls.len(),
        ls[i].status@ != "applied"@,
    ensures
        descriptions(ls, false).contains(request_described(ls[i])),
        !applied_over_empty_scope(ls[i]),
    decreases ls.len(),
{
    if i == ls.len() - 1 {
        let d = descriptions(ls.drop_last(), false);
        assert(descriptions(ls, false) == d.push(request_described(ls[i])));
        assert(descriptions(ls, false)[d.len() as int] == request_described(ls[i]));
    } else {
        law_unknown_status_is_not_applied(ls.drop_last(), i);
        let d = descriptions(ls.drop_last(), false);
        assert(d.contains(request_described(ls[i])));
        let k = choose|k: int| 0 <= k < d.len() && d[k] == request_described(ls[i]);
        if !applied(ls.last()) {
            assert(descriptions(ls, false) == d.push(request_described(ls.last())));
            assert(descriptions(ls, false)[k] == d[k]);
        }
    }
}

/// What a request line holds, as plain values.
pub open spec fn line_view(l: RequestLine) -> (Seq<char>, Seq<char>, Option<Seq<char>>, Option<Seq<char>>, Option<u64>) {
    (l.name@, l.status@, opt_text(l.affects), opt_text(l.reason), l.scope_size)
}

/// What each line holds, in order.
pub open spec fn line_views(ls: Seq<RequestLine>) -> Seq<(Seq<char>, Seq<char>, Option<Seq<char>>, Option<Seq<char>>, Option<u64>)> {
    ls.map_values(|l: RequestLine| line_view(l))
}

/// The name a diff-filter request is published under.
pub open spec fn diff_filter_name() -> Seq<char> {
    seq!['d', 'i', 'f', 'f', '-', 'f', 'i', 'l', 't', 'e', 'r']
}

/// The lines whose name sorts before (`before`) or after (`!before`) the
/// diff filter's, in order; the diff filter's own line is in neither.
pub open spec fn beside_filter(ls: Seq<RequestLine>, before: bool) -> Seq<RequestLine>
    decreases ls.len(),
{
    if ls.len() == 0 {
        Seq::empty()
    } else {
        let prev = beside_filter(ls.drop_last(), before);
        let n = ls.last().name@;
        if n != diff_filter_name() && (if before {
            lex_le(n, diff_filter_name())
        } else {
            lex_le(diff_filter_name(), n)
        }) {
            prev.push(ls.last())
        } else {
            prev
        }
    }
}

/// The names of the lines, in order.
pub open spec fn line_names(ls: Seq<RequestLine>) -> Seq<Seq<char>> {
    ls.map_values(|l: RequestLine| l.name@)
}

/// `out` is the saved lines, in name order, with the diff filter's entry
/// replaced by the live one (named `diff-filter`), at its place in that order.
pub open spec fn overlaid(out: Seq<RequestLine>, saved: Seq<RequestLine>, live: RequestLine) -> bool {
    exists|order: Seq<usize>|
        sorted_order(line_names(saved), order) && {
            let sorted = order.map_values(|k: usize| saved[k as int]);
            line_views(out) == line_views(beside_filter(sorted, true)) + seq![
                (diff_filter_name(), live.status@, opt_text(live.affects), opt_text(live.reason), live.scope_size),
            ] + line_views(beside_filter(sorted, false))
        }
}

fn copy_line(l: &RequestLine) -> (r: RequestLine)
    ensures
        line_view(r) == line_view(*l),
{
    RequestLine {
        name: copy_string(&l.name),
        status: copy_string(&l.status),
        affects: copy_opt(&l.affects),
        reason: copy_opt(&l.reason),
        scope_size: l.scope_size,
    }
}

fn push_beside(out: &mut Vec<RequestLine>, sorted: &Vec<RequestLine>, before: bool)
    ensures
        line_views(final(out)@) == line_views(old(out)@) + line_views(beside_filter(sorted@, before)),
{
    let filter_name: Vec<char> = chars_of("diff-filter");
    proof {
        reveal_strlit("diff-filter");
        assert(filter_name@ =~= diff_filter_name());
    }
    let ghost start = line_views(out@);
    let mut i: usize = 0;
    while i < sorted.len()
        invariant
            i <= sorted@.len(),
            filter_name@ == diff_filter_name(),
            line_views(out@) == start + line_views(beside_filter(sorted@.take(i as int), before)),
        decreases sorted@.len() - i,
    {
        let ghost t = sorted@.take(i as int + 1);
        proof {
            assert(t.drop_last() =~= sorted@.take(i as int));
            assert(t.last() == sorted@[i as int]);
        }
        let name = chars_of(sorted[i].name.as_str());
        let keep = !vec_eq(&name, &filter_name) && if before {
            lex_le_vec(&name, &filter_name)
        } else {
            lex_le_vec(&filter_name, &name)
        };
        let ghost prev = line_views(out@);
        if keep {
            out.push(copy_line(&sorted[i]));
            assert(line_views(out@) =~= prev.push(line_view(sorted@[i as int])));
            assert(line_views(beside_filter(t, before)) =~= line_views(beside_filter(
                sorted@.take(i as int),
                before,
            )).push(line_view(sorted@[i as int])));
        }
        i = i + 1;
    }
    assert(sorted@.take(sorted@.len() as int) =~= sorted@);
}

/// The saved lines with this process's own diff-filter outcome laid over them,
/// when that outcome stood the filter down: a re-render that resolved its own
/// diff states that diff's fate. The other channels stay the producing run's,
/// in name order. A live filter that applied, or none, changes nothing.
pub fn overlay_live_diff_filter(saved: &Vec<RequestLine>, live: Option<&RequestLine>) -> (r: Vec<RequestLine>)
    ensures
        match live {
            Some(l) => if l.status@ == "not-applied"@ {
                overlaid(r@, saved@, *l)
            } else {
                line_views(r@) == line_views(saved@)
            },
            None => line_views(r@) == line_views(saved@),
        },
{
    let stood_down = match live {
        Some(l) => str_eq(l.status.as_str(), "not-applied"),
        None => false,
    };
    if !stood_down {
        let mut out: Vec<RequestLine> = Vec::new();
        let mut i: usize = 0;
        while i < saved.len()
            invariant
                i <= saved@.len(),
                line_views(out@) == line_views(saved@.take(i as int)),
            decreases saved@.len() - i,
        {
            let ghost prev = line_views(out@);
            out.push(copy_line(&saved[i]));
            assert(line_views(out@) =~= prev.push(line_view(saved@[i as int])));
            assert(line_views(saved@.take(i as int + 1)) =~= line_views(saved@.take(i as int)).push(
                line_view(saved@[i as int]),
            ));
            i = i + 1;
        }
        assert(saved@.take(saved@.len() as int) =~= saved@);
        return out;
    }
    let l = match live {
        Some(l) => l,
        None => return Vec::new(),
    };
    let mut keys: Vec<Vec<char>> = Vec::new();
    let mut k: usize = 0;
    while k < saved.len()
        invariant
            k <= saved@.len(),
            char_vec_views(keys@) == line_names(saved@).take(k as int),
        decreases saved@.len() - k,
    {
        let ghost prev = char_vec_views(keys@);
        keys.push(chars_of(saved[k].name.as_str()));
        assert(char_vec_views(keys@) =~= prev.push(saved@[k as int].name@));
        assert(line_names(saved@).take(k as int + 1) =~= line_names(saved@).take(k as int).push(
            saved@[k as int].name@,
        ));
        k = k + 1;
    }
    assert(line_names(saved@).take(saved@.len() as int) =~= line_names(saved@));
    let order = sort_order(&keys);
    let mut sorted: Vec<RequestLine> = Vec::new();
    let mut q: usize = 0;
    while q < order.len()
        invariant
            q <= order@.len(),
            sorted_order(line_names(saved@), order@),
            sorted@.len() == q,
            forall|x: int| 0 <= x < q ==> line_view(#[trigger] sorted@[x]) == line_view(saved@[order@[x] as int]),
        decreases order@.len() - q,
    {
        assert(order@[q as int] < line_names(saved@).len());
        sorted.push(copy_line(&saved[order[q]]));
        q = q + 1;
    }
    let ghost target = order@.map_values(|k: usize| saved@[k as int]);
    proof {
        assert forall|x: int| 0 <= x < sorted@.len() implies line_view(#[trigger] sorted@[x]) == line_view(target[x]) by {}
        lemma_beside_views(sorted@, target, true);
        lemma_beside_views(sorted@, target, false);
    }
    let mut out: Vec<RequestLine> = Vec::new();
    push_beside(&mut out, &sorted, true);
    let mut name = String::new();
    push_str(&mut name, "diff-filter");
    proof {
        reveal_strlit("diff-filter");
        assert(name@ =~= diff_filter_name());
    }
    let ghost mid = line_views(out@);
    out.push(RequestLine {
        name,
        status: copy_string(&l.status),
        affects: copy_opt(&l.affects),
        reason: copy_opt(&l.reason),
        scope_size: l.scope_size,
    });
    assert(line_views(out@) =~= mid.push(
        (diff_filter_name(), l.status@, opt_text(l.affects), opt_text(l.reason), l.scope_size),
    ));
    push_beside(&mut out, &sorted, false);
    assert(line_views(out@) =~= line_views(beside_filter(target, true)) + seq![
        (diff_filter_name(), l.status@, opt_text(l.affects), opt_text(l.reason), l.scope_size),
    ] + line_views(beside_filter(target, false)));
    out
}

/// Two line lists that hold the same values keep the same lines beside the
/// diff filter.
proof fn lemma_beside_views(a: Seq<RequestLine>, b: Seq<RequestLine>, before: bool)
    requires
        a.len() == b.len(),
        forall|x: int| 0 <= x < a.len() ==> line_view(#[trigger] a[x]) == line_view(b[x]),
    ensures
        line_views(beside_filter(a, before)) == line_views(beside_filter(b, before)),
    decreases a.len(),
{
    if a.len() > 0 {
        lemma_beside_views(a.drop_last(), b.drop_last(), before);
        assert(line_view(a.last()) == line_view(b.last()));
        let pa = beside_filter(a.drop_last(), before);
        let pb = beside_filter(b.drop_last(), before);
        if line_views(beside_filter(a, before)).len() > line_views(pa).len() {
            assert(line_views(pa.push(a.last())) =~= line_views(pa).push(line_view(a.last())));
            assert(line_views(pb.push(b.last())) =~= line_views(pb).push(line_view(b.last())));
        }
        assert(line_views(pa.push(a.last())) =~= line_views(pa).push(line_view(a.last())));
        assert(line_views(pb.push(b.last())) =~= line_views(pb).push(line_view(b.last())));
    }
}

/// The inventory line the saved lines `ls` render to, or `None` when there
/// are none.
pub open spec fn saved_summary(ls: Seq<RequestLine>) -> Option<Seq<char>> {
    if ls.len() == 0 {
        None
    } else {
        Some(request_summary_text(ls))
    }
}

proof fn lemma_descriptions_by_views(a: Seq<RequestLine>, b: Seq<RequestLine>, want: bool)
    requires
        line_views(a) == line_views(b),
    ensures
        descriptions(a, want) == descriptions(b, want),
    decreases a.len(),
{
    assert(line_views(a).len() == a.len() && line_views(b).len() == b.len());
    if a.len() > 0 {
        assert(line_views(a.drop_last()) =~= line_views(a).drop_last());
        assert(line_views(b.drop_last()) =~= line_views(b).drop_last());
        lemma_descriptions_by_views(a.drop_last(), b.drop_last(), want);
        assert(line_view(a.last()) == line_views(a)[a.len() - 1]);
        assert(line_view(b.last()) == line_views(b)[b.len() - 1]);
        assert(request_described(a.last()) == request_described(b.last()));
    }
}

/// The inventory depends on what each line holds, not on how it is stored:
/// two line lists holding the same values render the same line, so a live
/// re-render that lays nothing over the saved outcomes renders the saved
/// line itself.
pub proof fn law_summary_depends_on_line_values(a: Seq<RequestLine>, b: Seq<RequestLine>)
    requires
        line_views(a) == line_views(b),
    ensures
        saved_summary(a) == saved_summary(b),
{
    assert(line_views(a).len() == a.len() && line_views(b).len() == b.len());
    lemma_descriptions_by_views(a, b, true);
    lemma_descriptions_by_views(a, b, false);
    assert forall|i: int| 0 <= i < a.len() implies line_view(#[trigger] a[i]) == line_view(b[i]) by {
        assert(line_views(a)[i] == line_views(b)[i]);
    }
    assert((exists|i: int| 0 <= i < a.len() && !applied(a[i]) && affects_scope(#[trigger] a[i])) == (exists|
        i: int,
    | 0 <= i < b.len() && !applied(b[i]) && affects_scope(#[trigger] b[i]))) by {
        if exists|i: int| 0 <= i < a.len() && !applied(a[i]) && affects_scope(#[trigger] a[i]) {
            let i = choose|i: int| 0 <= i < a.len() && !applied(a[i]) && affects_scope(#[trigger] a[i]);
            assert(line_view(a[i]) == line_view(b[i]));
            assert(!applied(b[i]) && affects_scope(b[i]));
        }
        if exists|i: int| 0 <= i < b.len() && !applied(b[i]) && affects_scope(#[trigger] b[i]) {
            let i = choose|i: int| 0 <= i < b.len() && !applied(b[i]) && affects_scope(#[trigger] b[i]);
            assert(line_view(a[i]) == line_view(b[i]));
            assert(!applied(a[i]) && affects_scope(a[i]));
        }
    }
    assert((exists|i: int| 0 <= i < a.len() && !applied(a[i]) && withholds_artifact(#[trigger] a[i])) == (exists|
        i: int,
    | 0 <= i < b.len() && !applied(b[i]) && withholds_artifact(#[trigger] b[i]))) by {
        if exists|i: int| 0 <= i < a.len() && !applied(a[i]) && withholds_artifact(#[trigger] a[i]) {
            let i = choose|i: int| 0 <= i < a.len() && !applied(a[i]) && withholds_artifact(#[trigger] a[i]);
            assert(line_view(a[i]) == line_view(b[i]));
            assert(!applied(b[i]) && withholds_artifact(b[i]));
        }
        if exists|i: int| 0 <= i < b.len() && !applied(b[i]) && withholds_artifact(#[trigger] b[i]) {
            let i = choose|i: int| 0 <= i < b.len() && !applied(b[i]) && withholds_artifact(#[trigger] b[i]);
            assert(line_view(a[i]) == line_view(b[i]));
            assert(!applied(a[i]) && withholds_artifact(a[i]));
        }
    }
    assert((exists|i: int| 0 <= i < a.len() && applied_over_empty_scope(#[trigger] a[i])) == (exists|i: int|
        0 <= i < b.len() && applied_over_empty_scope(#[trigger] b[i]))) by {
        if exists|i: int| 0 <= i < a.len() && applied_over_empty_scope(#[trigger] a[i]) {
            let i = choose|i: int| 0 <= i < a.len() && applied_over_empty_scope(#[trigger] a[i]);
            assert(line_view(a[i]) == line_view(b[i]));
            assert(applied_over_empty_scope(b[i]));
        }
        if exists|i: int| 0 <= i < b.len() && applied_over_empty_scope(#[trigger] b[i]) {
            let i = choose|i: int| 0 <= i < b.len() && applied_over_empty_scope(#[trigger] b[i]);
            assert(line_view(a[i]) == line_view(b[i]));
            assert(applied_over_empty_scope(a[i]));
        }
    }
}

/// The inventory line of a re-render, with its own stood-down diff filter laid
/// over the saved outcomes: without a live outcome, or with one that did not
/// stand the filter down, it is the saved line itself; with a stood-down live
/// filter it is the saved line of the saved outcomes with the `diff-filter`
/// entry set to the live one, in name order.
pub fn summary_line_with_live_diff_filter(saved: &Vec<RequestLine>, live: Option<&RequestLine>) -> (r:
    Option<String>)
    ensures
        match live {
            Some(l) => if l.status@ == "not-applied"@ {
                exists|merged: Seq<RequestLine>| overlaid(merged, saved@, *l) && opt_text(r) == saved_summary(merged)
            } else {
                opt_text(r) == saved_summary(saved@)
            },
            None => opt_text(r) == saved_summary(saved@),
        },
{
    let merged = overlay_live_diff_filter(saved, live);
    let r = summary_line(&merged);
    proof {
        let stood = match live {
            Some(l) => l.status@ == "not-applied"@,
            None => false,
        };
        if !stood {
            law_summary_depends_on_line_values(merged@, saved@);
        } else {
            let l = live.unwrap();
            assert(overlaid(merged@, saved@, *l));
        }
    }
    r
}

} // verus!
