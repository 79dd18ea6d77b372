//! SARIF naming: the native rule id a saved finding's title maps to, and the
//! SARIF level of an annotation.
use vstd::prelude::*;
use crate::meta_merge::{holds_str, union_in_order};
use crate::text::{
    char_vec_views, copy_str, decimal, push_decimal, sorted_distinct, strictly_sorted, string_of,
    chars_of, contains, has_infix, has_prefix, is_ascii_alnum, push_str, replace_char,
    replace_char_str, starts_with, str_eq, strip_dashes, strip_leading_dashes,
    strip_trailing_dashes, string_views_of,
};

verus! {

/// The runtime-coverage rule a title names, judged with `_` read as `-`.
pub open spec fn runtime_rule(title: Seq<char>) -> Seq<char> {
    let normalized = replace_char(title, '_', "-"@);
    if has_infix(normalized, "safe-to-delete"@) {
        "fallow/runtime-safe-to-delete"@
    } else if has_infix(normalized, "review-required"@) {
        "fallow/runtime-review-required"@
    } else if has_infix(normalized, "low-traffic"@) {
        "fallow/runtime-low-traffic"@
    } else if has_infix(normalized, "coverage-unavailable"@) {
        "fallow/runtime-coverage-unavailable"@
    } else {
        "fallow/runtime-coverage"@
    }
}

/// The coverage-intelligence rule a title names.
pub open spec fn coverage_intelligence_rule(title: Seq<char>) -> Seq<char> {
    if has_infix(title, "add-test-or-split-before-merge"@) {
        "fallow/coverage-intelligence-risky-change"@
    } else if has_infix(title, "delete-after-confirming-owner"@) {
        "fallow/coverage-intelligence-delete"@
    } else if has_infix(title, "refactor-carefully-keep-behavior"@) {
        "fallow/coverage-intelligence-refactor"@
    } else {
        "fallow/coverage-intelligence-review"@
    }
}

/// The rule id of a title whose rule is not its slug, if it is one of those.
pub open spec fn fixed_rule_id(title: Seq<char>) -> Option<Seq<char>> {
    if title == "Dynamic segment conflict"@ {
        Some("fallow/dynamic-segment-name-conflict"@)
    } else if title == "Unused devDependency"@ {
        Some("fallow/unused-dev-dependency"@)
    } else if title == "Unused optionalDependency"@ {
        Some("fallow/unused-optional-dependency"@)
    } else if title == "Stale @expected-unused"@ || title == "Unknown suppression kind"@ {
        Some("fallow/stale-suppression"@)
    } else if has_prefix(title, "High cyclomatic complexity"@) {
        Some("fallow/high-cyclomatic-complexity"@)
    } else if has_prefix(title, "High cognitive complexity"@) {
        Some("fallow/high-cognitive-complexity"@)
    } else if has_prefix(title, "High complexity"@) {
        Some("fallow/high-complexity"@)
    } else if has_prefix(title, "High CRAP score"@) {
        Some("fallow/high-crap-score"@)
    } else if has_prefix(title, "Refactoring target"@) {
        Some("fallow/refactoring-target"@)
    } else if has_prefix(title, "Runtime coverage"@) {
        Some(runtime_rule(title))
    } else if has_prefix(title, "Coverage intelligence"@) {
        Some(coverage_intelligence_rule(title))
    } else if has_prefix(title, "Security candidate"@) {
        Some("fallow/security-candidate"@)
    } else {
        None
    }
}

/// The titles whose whole text, not a prefix, picks their rule.
pub open spec fn exact_rule_title(t: Seq<char>) -> bool {
    t == "Dynamic segment conflict"@ || t == "Unused devDependency"@ || t == "Unused optionalDependency"@
}

/// Different exact titles report different rules: a saved dev-dependency
/// finding and a saved optional-dependency finding never share a rule id,
/// and neither shares one with a dynamic-segment conflict.
pub proof fn law_exact_titles_keep_distinct_rules(t1: Seq<char>, t2: Seq<char>)
    requires
        exact_rule_title(t1),
        exact_rule_title(t2),
        t1 != t2,
    ensures
        native_rule_text(t1) != native_rule_text(t2),
{
    reveal_strlit("Dynamic segment conflict");
    reveal_strlit("Unused devDependency");
    reveal_strlit("Unused optionalDependency");
    reveal_strlit("fallow/dynamic-segment-name-conflict");
    reveal_strlit("fallow/unused-dev-dependency");
    reveal_strlit("fallow/unused-optional-dependency");
    let d = "fallow/dynamic-segment-name-conflict"@;
    let v = "fallow/unused-dev-dependency"@;
    let o = "fallow/unused-optional-dependency"@;
    assert(d[7] != v[7]);
    assert(d[7] != o[7]);
    assert(v[14] != o[14]);
}

/// A dependency title's rule names its kind of dependency: the optional
/// kind's rule is `fallow/unused-optional-dependency` and the dev kind's is
/// `fallow/unused-dev-dependency`, whatever the other titles map to.
pub proof fn law_dependency_titles_name_their_kind(t: Seq<char>)
    requires
        t == "Unused devDependency"@ || t == "Unused optionalDependency"@,
    ensures
        t == "Unused optionalDependency"@ ==> native_rule_text(t) == "fallow/unused-optional-dependency"@,
        t == "Unused devDependency"@ ==> native_rule_text(t) == "fallow/unused-dev-dependency"@,
{
    reveal_strlit("Dynamic segment conflict");
    reveal_strlit("Unused devDependency");
    reveal_strlit("Unused optionalDependency");
    assert(t != "Dynamic segment conflict"@) by {
        assert(t[0] != "Dynamic segment conflict"@[0]);
    }
    if t == "Unused optionalDependency"@ {
        assert(t != "Unused devDependency"@) by {
            assert(t.len() != "Unused devDependency"@.len());
        }
        assert(fixed_rule_id(t) == Some("fallow/unused-optional-dependency"@));
    } else {
        assert(fixed_rule_id(t) == Some("fallow/unused-dev-dependency"@));
    }
}

/// A title character in a slug: ASCII letters lowercased, digits kept,
/// anything else `-`.
pub open spec fn slug_char(c: char) -> char {
    if 'A' <= c <= 'Z' {
        ((c as int) + 32) as char
    } else if is_ascii_alnum(c) {
        c
    } else {
        '-'
    }
}

/// The slug of a title: lowercased, every other character `-`, and `-`
/// trimmed from both ends.
pub open spec fn slug(title: Seq<char>) -> Seq<char> {
    strip_trailing_dashes(strip_leading_dashes(title.map_values(|c: char| slug_char(c))))
}

/// The native SARIF rule id of a saved finding's title: a fixed id for the
/// titles whose rule is not their slug, else `fallow/` and the slug, or
/// `fallow/finding` when the slug is empty.
pub open spec fn native_rule_text(title: Seq<char>) -> Seq<char> {
    match fixed_rule_id(title) {
        Some(id) => id,
        None => if slug(title).len() == 0 {
            "fallow/finding"@
        } else {
            "fallow/"@ + slug(title)
        },
    }
}

fn slug_char_exec(c: char) -> (r: char)
    ensures
        r == slug_char(c),
{
    if 'A' <= c && c <= 'Z' {
        let b = c as u32;
        let low = b + 32;
        assert(low == (c as int) + 32);
        char_from(low)
    } else if crate::text::ascii_alnum(c) {
        c
    } else {
        '-'
    }
}

fn char_from(u: u32) -> (r: char)
    requires
        0x61 <= u <= 0x7a,
    ensures
        r == u as char,
{
    (u as u8) as char
}

/// The rule id of a title whose rule is not its slug, if it is one of those.
fn fixed_rule(title: &str) -> (r: Option<&'static str>)
    ensures
        match r {
            Some(s) => fixed_rule_id(title@) == Some(s@),
            None => fixed_rule_id(title@) is None,
        },
{
    if str_eq(title, "Dynamic segment conflict") {
        Some("fallow/dynamic-segment-name-conflict")
    } else if str_eq(title, "Unused devDependency") {
        Some("fallow/unused-dev-dependency")
    } else if str_eq(title, "Unused optionalDependency") {
        Some("fallow/unused-optional-dependency")
    } else if str_eq(title, "Stale @expected-unused") || str_eq(title, "Unknown suppression kind") {
        Some("fallow/stale-suppression")
    } else if starts_with(title, "High cyclomatic complexity") {
        Some("fallow/high-cyclomatic-complexity")
    } else if starts_with(title, "High cognitive complexity") {
        Some("fallow/high-cognitive-complexity")
    } else if starts_with(title, "High complexity") {
        Some("fallow/high-complexity")
    } else if starts_with(title, "High CRAP score") {
        Some("fallow/high-crap-score")
    } else if starts_with(title, "Refactoring target") {
        Some("fallow/refactoring-target")
    } else if starts_with(title, "Runtime coverage") {
        let normalized = replace_char_str(title, '_', "-");
        if contains(normalized.as_str(), "safe-to-delete") {
            Some("fallow/runtime-safe-to-delete")
        } else if contains(normalized.as_str(), "review-required") {
            Some("fallow/runtime-review-required")
        } else if contains(normalized.as_str(), "low-traffic") {
            Some("fallow/runtime-low-traffic")
        } else if contains(normalized.as_str(), "coverage-unavailable") {
            Some("fallow/runtime-coverage-unavailable")
        } else {
            Some("fallow/runtime-coverage")
        }
    } else if starts_with(title, "Coverage intelligence") {
        if contains(title, "add-test-or-split-before-merge") {
            Some("fallow/coverage-intelligence-risky-change")
        } else if contains(title, "delete-after-confirming-owner") {
            Some("fallow/coverage-intelligence-delete")
        } else if contains(title, "refactor-carefully-keep-behavior") {
            Some("fallow/coverage-intelligence-refactor")
        } else {
            Some("fallow/coverage-intelligence-review")
        }
    } else if starts_with(title, "Security candidate") {
        Some("fallow/security-candidate")
    } else {
        None
    }
}

/// The native SARIF rule id of a saved finding's title, so a re-rendered
/// envelope reports the same rule ids as a fresh run.
pub fn native_rule_id(title: &str) -> (r: String)
    ensures
        r@ == native_rule_text(title@),
{
    if let Some(rule_id) = fixed_rule(title) {
        let mut r = String::new();
        push_str(&mut r, rule_id);
        assert(r@ =~= rule_id@);
        return r;
    }
    let v = chars_of(title);
    let n = v.len();
    let mut m: Vec<char> = Vec::new();
    let mut k: usize = 0;
    while k < n
        invariant
            n == v.len(),
            k <= n,
            m@ == v@.take(k as int).map_values(|c: char| slug_char(c)),
        decreases n - k,
    {
        m.push(slug_char_exec(v[k]));
        k = k + 1;
        assert(m@ =~= v@.take(k as int).map_values(|c: char| slug_char(c)));
    }
    assert(v@.take(n as int) =~= v@);
    let s = strip_dashes(&m);
    let mut r = String::new();
    if s.as_str().unicode_len() == 0 {
        push_str(&mut r, "fallow/finding");
        assert(r@ =~= "fallow/finding"@);
    } else {
        push_str(&mut r, "fallow/");
        push_str(&mut r, s.as_str());
        assert(r@ =~= "fallow/"@ + slug(title@));
    }
    r
}

/// The level of a CI annotation.
#[derive(Debug, Clone, Copy, PartialEq, Eq, Structural)]
pub enum AnnotationLevel {
    Error,
    Warning,
    Notice,
}

/// The SARIF level of an annotation: `error`, `warning`, or `note`.
pub open spec fn annotation_level_text(level: AnnotationLevel) -> Seq<char> {
    match level {
        AnnotationLevel::Error => "error"@,
        AnnotationLevel::Warning => "warning"@,
        AnnotationLevel::Notice => "note"@,
    }
}

/// The SARIF level of an annotation.
pub fn annotation_level(level: AnnotationLevel) -> (r: &'static str)
    ensures
        r@ == annotation_level_text(level),
{
    match level {
        AnnotationLevel::Error => "error",
        AnnotationLevel::Warning => "warning",
        AnnotationLevel::Notice => "note",
    }
}


/// What a type-aware query carries into a SARIF run's provenance.
pub struct QueryNote {
    pub query_id: Option<u64>,
    pub capability: Option<String>,
    pub status: Option<String>,
    pub assertion: Option<String>,
    /// The key queries are grouped by: their capability, status, assertion,
    /// reason, actions and omissions, as compact JSON text.
    pub group_key: String,
}

/// One tool-execution notification: a group of incomplete queries that share
/// a key. `first` is the position of the group's first query, whose reason,
/// actions and omissions the notification repeats.
pub struct Notification {
    pub first: usize,
    pub capability: String,
    pub status: String,
    pub message: String,
    pub query_ids: Vec<u64>,
    pub query_count: usize,
}

/// Whether a query was answered less than completely (a missing status
/// counts as incomplete).
pub open spec fn is_incomplete(q: QueryNote) -> bool {
    !(q.status matches Some(s) && s@ == "complete"@)
}

/// The keys of the incomplete queries, in order.
pub open spec fn incomplete_keys(qs: Seq<QueryNote>) -> Seq<Seq<char>>
    decreases qs.len(),
{
    if qs.len() == 0 {
        Seq::empty()
    } else if is_incomplete(qs.last()) {
        incomplete_keys(qs.drop_last()).push(qs.last().group_key@)
    } else {
        incomplete_keys(qs.drop_last())
    }
}

/// The positions of the incomplete queries with key `key`, in order.
pub open spec fn members(qs: Seq<QueryNote>, key: Seq<char>) -> Seq<int>
    decreases qs.len(),
{
    if qs.len() == 0 {
        Seq::empty()
    } else if is_incomplete(qs.last()) && qs.last().group_key@ == key {
        members(qs.drop_last(), key).push(qs.len() - 1)
    } else {
        members(qs.drop_last(), key)
    }
}

/// The query ids the queries at positions `mem` carry, in order.
pub open spec fn ids_of(qs: Seq<QueryNote>, mem: Seq<int>) -> Seq<u64>
    decreases mem.len(),
{
    if mem.len() == 0 {
        Seq::empty()
    } else {
        match qs[mem.last()].query_id {
            Some(id) => ids_of(qs, mem.drop_last()).push(id),
            None => ids_of(qs, mem.drop_last()),
        }
    }
}

/// The text of `o`, or `d` when there is none.
pub open spec fn or_text(o: Option<String>, d: Seq<char>) -> Seq<char> {
    match o {
        Some(s) => s@,
        None => d,
    }
}

/// The notification's message.
pub open spec fn notification_message(
    capability: Seq<char>,
    status: Seq<char>,
    assertion: Seq<char>,
    count: nat,
) -> Seq<char> {
    "Type-aware "@ + capability + " was "@ + status + ": "@ + assertion + if count > 1 {
        " ("@ + decimal(count) + " queries)"@
    } else {
        Seq::empty()
    }
}

/// `n` is the notification of the group of queries with key `key`.
pub open spec fn notification_for(n: Notification, qs: Seq<QueryNote>, key: Seq<char>) -> bool {
    let mem = members(qs, key);
    &&& mem.len() > 0
    &&& n.first == mem[0]
    &&& n.query_count == mem.len()
    &&& n.query_ids@ == ids_of(qs, mem)
    &&& n.capability@ == or_text(qs[mem[0]].capability, "unknown"@)
    &&& n.status@ == or_text(qs[mem[0]].status, "unavailable"@)
    &&& n.message@ == notification_message(
        n.capability@,
        n.status@,
        or_text(qs[mem[0]].assertion, "no-safe-assertion"@),
        mem.len(),
    )
}

proof fn lemma_members_nonempty(qs: Seq<QueryNote>, key: Seq<char>)
    requires
        incomplete_keys(qs).contains(key),
    ensures
        members(qs, key).len() > 0,
    decreases qs.len(),
{
    if qs.len() > 0 {
        if !(is_incomplete(qs.last()) && qs.last().group_key@ == key) {
            let prev = incomplete_keys(qs.drop_last());
            if is_incomplete(qs.last()) {
                vstd::seq_lib::lemma_seq_contains_after_push(prev, qs.last().group_key@, key);
            }
            lemma_members_nonempty(qs.drop_last(), key);
        }
    }
}

proof fn lemma_members_bounded(qs: Seq<QueryNote>, key: Seq<char>)
    ensures
        forall|q: int| 0 <= q < members(qs, key).len() ==> 0 <= #[trigger] members(qs, key)[q] < qs.len(),
    decreases qs.len(),
{
    if qs.len() > 0 {
        lemma_members_bounded(qs.drop_last(), key);
        let prev = members(qs.drop_last(), key);
        let m = members(qs, key);
        assert forall|q: int| 0 <= q < m.len() implies 0 <= #[trigger] m[q] < qs.len() by {
            if q < prev.len() {
                assert(m[q] == prev[q]);
            }
        }
    }
}

fn text_or(o: &Option<String>, d: &str) -> (r: String)
    ensures
        r@ == or_text(*o, d@),
{
    match o {
        Some(s) => {
            let mut r = String::new();
            push_str(&mut r, s.as_str());
            assert(r@ =~= s@);
            r
        },
        None => {
            let mut r = String::new();
            push_str(&mut r, d);
            assert(r@ =~= d@);
            r
        },
    }
}

fn note_incomplete(q: &QueryNote) -> (r: bool)
    ensures
        r == is_incomplete(*q),
{
    match &q.status {
        Some(s) => !str_eq(s.as_str(), "complete"),
        None => true,
    }
}

/// The notifications that record, on a SARIF run, every type-aware query
/// that was not answered completely: one per distinct grouping key, in key
/// order, each carrying its queries' ids and count and the first query's
/// capability, status and assertion. Nothing here manufactures a finding.
pub fn type_aware_notifications(queries: &Vec<QueryNote>) -> (r: Vec<Notification>)
    ensures
        exists|keys: Seq<Seq<char>>|
            #![trigger strictly_sorted(keys)]
            strictly_sorted(keys) && (forall|x: Seq<char>| #[trigger] keys.contains(x)
                <==> incomplete_keys(queries@).contains(x)) && r@.len() == keys.len() && (forall|j: int|
                0 <= j < r@.len() ==> notification_for(#[trigger] r@[j], queries@, keys[j])),
{
    let ghost qs = queries@;
    let mut keys: Vec<Vec<char>> = Vec::new();
    let mut i: usize = 0;
    assert(qs.take(0) =~= Seq::<QueryNote>::empty());
    while i < queries.len()
        invariant
            qs == queries@,
            i <= qs.len(),
            char_vec_views(keys@) == incomplete_keys(qs.take(i as int)),
        decreases qs.len() - i,
    {
        let ghost t = qs.take(i as int + 1);
        proof {
            assert(t.drop_last() =~= qs.take(i as int));
            assert(t.last() == qs[i as int]);
        }
        if note_incomplete(&queries[i]) {
            let k = chars_of(queries[i].group_key.as_str());
            keys.push(k);
        }
        assert(char_vec_views(keys@) =~= incomplete_keys(t));
        i = i + 1;
    }
    assert(qs.take(qs.len() as int) =~= qs);
    let distinct = sorted_distinct(&keys);
    let ghost ds = char_vec_views(distinct@);
    let mut out: Vec<Notification> = Vec::new();
    let mut j: usize = 0;
    while j < distinct.len()
        invariant
            qs == queries@,
            ds == char_vec_views(distinct@),
            strictly_sorted(ds),
            forall|x: Seq<char>| #[trigger] ds.contains(x) <==> incomplete_keys(qs).contains(x),
            j <= ds.len(),
            out@.len() == j,
            forall|q: int| 0 <= q < j ==> notification_for(#[trigger] out@[q], qs, ds[q]),
        decreases ds.len() - j,
    {
        let key = string_of(&distinct[j]);
        let ghost g = ds[j as int];
        assert(g == distinct@[j as int]@);
        proof {
            assert(ds.contains(g));
            lemma_members_nonempty(qs, g);
        }
        let mut first: usize = 0;
        let mut count: usize = 0;
        let mut ids: Vec<u64> = Vec::new();
        let mut k: usize = 0;
        while k < queries.len()
            invariant
                qs == queries@,
                key@ == g,
                k <= qs.len(),
                count == members(qs.take(k as int), g).len(),
                count <= k,
                count > 0 ==> first == members(qs.take(k as int), g)[0],
                ids@ == ids_of(qs, members(qs.take(k as int), g)),
                forall|q: int| 0 <= q < members(qs.take(k as int), g).len() ==> 0 <= #[trigger] members(qs.take(k as int), g)[q] < k,
            decreases qs.len() - k,
        {
            let ghost pre = qs.take(k as int);
            let ghost t = qs.take(k as int + 1);
            proof {
                assert(t.drop_last() =~= pre);
                assert(t.last() == qs[k as int]);
                lemma_members_bounded(pre, g);
            }
            let q = &queries[k];
            if note_incomplete(q) && str_eq(q.group_key.as_str(), key.as_str()) {
                if count == 0 {
                    first = k;
                }
                match q.query_id {
                    Some(id) => ids.push(id),
                    None => {},
                }
                count = count + 1;
                proof {
                    let m = members(t, g);
                    assert(m == members(pre, g).push(k as int));
                    assert(m.drop_last() == members(pre, g));
                    assert(qs[m.last()] == qs[k as int]);
                }
            }
            k = k + 1;
        }
        assert(qs.take(qs.len() as int) =~= qs);
        let capability = text_or(&queries[first].capability, "unknown");
        let status = text_or(&queries[first].status, "unavailable");
        let assertion = text_or(&queries[first].assertion, "no-safe-assertion");
        let mut message = String::new();
        push_str(&mut message, "Type-aware ");
        push_str(&mut message, capability.as_str());
        push_str(&mut message, " was ");
        push_str(&mut message, status.as_str());
        push_str(&mut message, ": ");
        push_str(&mut message, assertion.as_str());
        if count > 1 {
            push_str(&mut message, " (");
            push_decimal(&mut message, count as u64);
            push_str(&mut message, " queries)");
        }
        assert(message@ =~= notification_message(capability@, status@, assertion@, count as nat));
        let n = Notification { first, capability, status, message, query_ids: ids, query_count: count };
        out.push(n);
        proof {
            assert forall|q: int| 0 <= q < j + 1 implies notification_for(#[trigger] out@[q], qs, ds[q]) by {
                if q < j {
                    assert(out@[q] == out@.drop_last()[q]);
                }
            }
        }
        j = j + 1;
    }
    out
}

/// One CI annotation to be rendered as a SARIF result.
#[derive(Debug)]
pub struct SarifAnnotation {
    pub title: String,
    pub message: String,
    pub level: AnnotationLevel,
    pub line: Option<u64>,
    pub col: Option<u64>,
    pub end_line: Option<u64>,
}

/// `v` held between `lo` and `hi`.
pub open spec fn clamped(v: u64, lo: u64, hi: u64) -> u64 {
    if v < lo {
        lo
    } else if v > hi {
        hi
    } else {
        v
    }
}

/// The start of an annotation's region: its line and column (column 1 when
/// missing), each held to `1..=u32::MAX`; no region without a line.
pub open spec fn region_of(line: Option<u64>, col: Option<u64>) -> Option<(u32, u32)> {
    match line {
        None => None,
        Some(l) => Some(
            (
                clamped(l, 1, u32::MAX as u64) as u32,
                clamped(
                    match col {
                        Some(c) => c,
                        None => 1,
                    },
                    1,
                    u32::MAX as u64,
                ) as u32,
            ),
        ),
    }
}

/// The end line a region gains: the annotation's end line held to
/// `start..=u32::MAX`; none without a region or an end line.
pub open spec fn end_line_of(end_line: Option<u64>, region: Option<(u32, u32)>) -> Option<u32> {
    match (end_line, region) {
        (Some(e), Some((start, _))) => Some(clamped(e, start as u64, u32::MAX as u64) as u32),
        _ => None,
    }
}

fn clamp_u64(v: u64, lo: u64, hi: u64) -> (r: u64)
    requires
        lo <= hi,
    ensures
        r == clamped(v, lo, hi),
{
    if v < lo {
        lo
    } else if v > hi {
        hi
    } else {
        v
    }
}

/// The region start of an annotation.
pub fn annotation_region(line: Option<u64>, col: Option<u64>) -> (r: Option<(u32, u32)>)
    ensures
        r == region_of(line, col),
{
    match line {
        None => None,
        Some(l) => {
            let c = match col {
                Some(c) => c,
                None => 1,
            };
            let line32 = clamp_u64(l, 1, 4294967295) as u32;
            let col32 = clamp_u64(c, 1, 4294967295) as u32;
            Some((line32, col32))
        },
    }
}

/// The end line of an annotation's region.
pub fn annotation_end_line(end_line: Option<u64>, region: Option<(u32, u32)>) -> (r: Option<u32>)
    ensures
        r == end_line_of(end_line, region),
{
    match (end_line, region) {
        (Some(e), Some((start, _))) => Some(clamp_u64(e, start as u64, 4294967295) as u32),
        _ => None,
    }
}

/// What a SARIF result for an annotation holds.
#[derive(Debug)]
pub struct SarifResultPlan {
    pub rule_id: String,
    pub level: String,
    pub message: String,
    pub region: Option<(u32, u32)>,
    pub end_line: Option<u32>,
}

/// The level of an annotation's result: a dead-code rule keeps the level its
/// rule is configured with, when the run lists one; anything else takes the
/// annotation's own level.
pub open spec fn result_level(level: AnnotationLevel, dead_code_rule: bool, configured: Option<Seq<char>>) -> Seq<char> {
    if dead_code_rule && configured is Some {
        configured->0
    } else {
        annotation_level_text(level)
    }
}

/// The SARIF result of an annotation: its native rule id, its level, the
/// message `title: message`, and its region. `dead_code_rule` says whether the
/// rule id is a dead-code rule, and `configured` is the default level of that
/// rule among the run's rules, if it is listed with one.
pub fn annotation_result(a: &SarifAnnotation, dead_code_rule: bool, configured: Option<&str>) -> (r:
    SarifResultPlan)
    ensures
        r.rule_id@ == native_rule_text(a.title@),
        r.level@ == result_level(
            a.level,
            dead_code_rule,
            match configured {
                Some(c) => Some(c@),
                None => None,
            },
        ),
        r.message@ == a.title@ + ": "@ + a.message@,
        r.region == region_of(a.line, a.col),
        r.end_line == end_line_of(a.end_line, region_of(a.line, a.col)),
{
    let rule_id = native_rule_id(a.title.as_str());
    let mut level = String::new();
    match configured {
        Some(c) if dead_code_rule => push_str(&mut level, c),
        _ => push_str(&mut level, annotation_level(a.level)),
    }
    let mut message = String::new();
    push_str(&mut message, a.title.as_str());
    push_str(&mut message, ": ");
    push_str(&mut message, a.message.as_str());
    let region = annotation_region(a.line, a.col);
    let end_line = annotation_end_line(a.end_line, region);
    assert(level@ =~= result_level(
        a.level,
        dead_code_rule,
        match configured {
            Some(c) => Some(c@),
            None => None,
        },
    ));
    SarifResultPlan { rule_id, level, message, region, end_line }
}

/// The rule ids of a run's rule list after annotations added theirs: the ids
/// the run already listed, in their order (once each), then the new ones,
/// sorted.
pub fn ordered_rule_ids(existing: &Vec<String>, added: &Vec<String>) -> (r: Vec<String>)
    ensures
        exists|fresh: Seq<Seq<char>>|
            string_views_of(r@) == union_in_order(Seq::empty(), string_views_of(existing@)) + fresh
                && strictly_sorted(fresh) && forall|x: Seq<char>|
                #[trigger] fresh.contains(x) <==> (string_views_of(added@).contains(x)
                    && !string_views_of(existing@).contains(x)),
{
    let ghost ev = string_views_of(existing@);
    let ghost av = string_views_of(added@);
    let mut out: Vec<String> = Vec::new();
    let mut i: usize = 0;
    while i < existing.len()
        invariant
            i <= existing@.len(),
            ev == string_views_of(existing@),
            string_views_of(out@) == union_in_order(Seq::empty(), ev.take(i as int)),
        decreases existing@.len() - i,
    {
        let ghost prev = string_views_of(out@);
        proof {
            assert(ev.take(i as int + 1).drop_last() =~= ev.take(i as int));
            assert(ev.take(i as int + 1).last() == existing@[i as int]@);
        }
        if !holds_str(&out, existing[i].as_str()) {
            let mut s = String::new();
            push_str(&mut s, existing[i].as_str());
            out.push(s);
            assert(string_views_of(out@) =~= prev.push(existing@[i as int]@));
        }
        i = i + 1;
    }
    assert(ev.take(existing@.len() as int) =~= ev);
    let ghost first = string_views_of(out@);
    let mut keys: Vec<Vec<char>> = Vec::new();
    let mut j: usize = 0;
    while j < added.len()
        invariant
            j <= added@.len(),
            ev == string_views_of(existing@),
            av == string_views_of(added@),
            forall|x: Seq<char>|
                #[trigger] char_vec_views(keys@).contains(x) <==> (av.take(j as int).contains(x) && !ev.contains(x)),
        decreases added@.len() - j,
    {
        let ghost prev = char_vec_views(keys@);
        proof {
            assert(av.take(j as int + 1) =~= av.take(j as int).push(added@[j as int]@));
        }
        let ghost a = added@[j as int]@;
        let ghost t = av.take(j as int);
        if !holds_str(existing, added[j].as_str()) {
            keys.push(chars_of(added[j].as_str()));
            assert(char_vec_views(keys@) =~= prev.push(a));
            assert forall|x: Seq<char>|
                #[trigger] char_vec_views(keys@).contains(x) <==> (t.push(a).contains(x) && !ev.contains(x)) by {
                if char_vec_views(keys@).contains(x) {
                    let q = choose|q: int| 0 <= q < prev.push(a).len() && prev.push(a)[q] == x;
                    if q < prev.len() {
                        assert(prev.contains(x));
                        let w = choose|w: int| 0 <= w < t.len() && t[w] == x;
                        assert(t.push(a)[w] == x);
                    } else {
                        assert(t.push(a)[t.len() as int] == x);
                    }
                }
                if t.push(a).contains(x) && !ev.contains(x) {
                    let q = choose|q: int| 0 <= q < t.push(a).len() && t.push(a)[q] == x;
                    if q < t.len() {
                        assert(t.contains(x));
                        assert(prev.contains(x));
                        let w = choose|w: int| 0 <= w < prev.len() && prev[w] == x;
                        assert(prev.push(a)[w] == x);
                    } else {
                        assert(prev.push(a)[prev.len() as int] == x);
                    }
                }
            }
        } else {
            assert(ev.contains(a));
            assert forall|x: Seq<char>|
                #[trigger] char_vec_views(keys@).contains(x) <==> (t.push(a).contains(x) && !ev.contains(x)) by {
                if t.push(a).contains(x) && !ev.contains(x) {
                    let q = choose|q: int| 0 <= q < t.push(a).len() && t.push(a)[q] == x;
                    if q < t.len() {
                        assert(t[q] == x);
                    }
                }
                if char_vec_views(keys@).contains(x) {
                    let w = choose|w: int| 0 <= w < t.len() && t[w] == x;
                    assert(t.push(a)[w] == x);
                }
            }
        }
        j = j + 1;
    }
    assert(av.take(added@.len() as int) =~= av);
    let fresh = sorted_distinct(&keys);
    let ghost fv = char_vec_views(fresh@);
    let mut k: usize = 0;
    while k < fresh.len()
        invariant
            k <= fresh@.len(),
            fv == char_vec_views(fresh@),
            string_views_of(out@) == first + fv.take(k as int),
        decreases fresh@.len() - k,
    {
        let ghost prev = string_views_of(out@);
        out.push(string_of(&fresh[k]));
        proof {
            assert(string_views_of(out@) =~= prev.push(fresh@[k as int]@));
            assert(fv.take(k as int + 1) =~= fv.take(k as int).push(fv[k as int]));
        }
        k = k + 1;
    }
    assert(fv.take(fresh@.len() as int) =~= fv);
    out
}

/// A rule of a run's rule list, by id, with its configured default level
/// when it has one.
pub struct RunRule {
    pub id: String,
    pub level: Option<String>,
}

/// What a rule holds, as plain values.
pub open spec fn rule_view(r: RunRule) -> (Seq<char>, Option<Seq<char>>) {
    (
        r.id@,
        match r.level {
            Some(l) => Some(l@),
            None => None,
        },
    )
}

/// What each rule holds, in order.
pub open spec fn rule_views(rs: Seq<RunRule>) -> Seq<(Seq<char>, Option<Seq<char>>)> {
    rs.map_values(|r: RunRule| rule_view(r))
}

/// Whether the rule list holds `id`.
pub open spec fn has_rule(rs: Seq<(Seq<char>, Option<Seq<char>>)>, id: Seq<char>) -> bool
    decreases rs.len(),
{
    if rs.len() == 0 {
        false
    } else {
        rs.last().0 == id || has_rule(rs.drop_last(), id)
    }
}

/// The configured level of rule `id`: that of its last entry, as a map keyed
/// by id keeps it.
pub open spec fn configured_level(rs: Seq<(Seq<char>, Option<Seq<char>>)>, id: Seq<char>) -> Option<Seq<char>>
    decreases rs.len(),
{
    if rs.len() == 0 {
        None
    } else if rs.last().0 == id {
        rs.last().1
    } else {
        configured_level(rs.drop_last(), id)
    }
}

/// The level annotation `a` earns against rule list `rs`, where `dead` are
/// the dead-code rule ids.
pub open spec fn planned_level(a: SarifAnnotation, rs: Seq<(Seq<char>, Option<Seq<char>>)>, dead: Seq<Seq<char>>) -> Seq<char> {
    let id = native_rule_text(a.title@);
    result_level(a.level, dead.contains(id), configured_level(rs, id))
}

/// The rule list after the annotations `anns`, in order: each annotation
/// whose rule the list lacks adds it, with the level the annotation earned.
pub open spec fn rules_after(
    rs: Seq<(Seq<char>, Option<Seq<char>>)>,
    anns: Seq<SarifAnnotation>,
    dead: Seq<Seq<char>>,
) -> Seq<(Seq<char>, Option<Seq<char>>)>
    decreases anns.len(),
{
    if anns.len() == 0 {
        rs
    } else {
        let prev = rules_after(rs, anns.drop_last(), dead);
        let a = anns.last();
        let id = native_rule_text(a.title@);
        if has_rule(prev, id) {
            prev
        } else {
            prev.push((id, Some(planned_level(a, prev, dead))))
        }
    }
}

/// `p` is the result of annotation `a` against rule list `rs`.
pub open spec fn plan_of(p: SarifResultPlan, a: SarifAnnotation, rs: Seq<(Seq<char>, Option<Seq<char>>)>, dead: Seq<Seq<char>>) -> bool {
    &&& p.rule_id@ == native_rule_text(a.title@)
    &&& p.level@ == planned_level(a, rs, dead)
    &&& p.message@ == a.title@ + ": "@ + a.message@
    &&& p.region == region_of(a.line, a.col)
    &&& p.end_line == end_line_of(a.end_line, region_of(a.line, a.col))
}

fn lookup_rule(rules: &Vec<RunRule>, id: &str) -> (r: (bool, Option<String>))
    ensures
        r.0 == has_rule(rule_views(rules@), id@),
        match r.1 {
            Some(l) => Some(l@),
            None => None,
        } == configured_level(rule_views(rules@), id@),
{
    let ghost v = rule_views(rules@);
    let mut i: usize = rules.len();
    assert(v.take(v.len() as int) =~= v);
    while i > 0
        invariant
            v == rule_views(rules@),
            i <= rules@.len(),
            has_rule(v, id@) == has_rule(v.take(i as int), id@),
            configured_level(v, id@) == configured_level(v.take(i as int), id@),
        decreases i,
    {
        let ghost t = v.take(i as int);
        assert(t.drop_last() =~= v.take(i as int - 1));
        assert(t.last() == rule_view(rules@[i as int - 1]));
        if str_eq(rules[i - 1].id.as_str(), id) {
            let level = match &rules[i - 1].level {
                Some(l) => Some(copy_str(l.as_str())),
                None => None,
            };
            return (true, level);
        }
        i = i - 1;
    }
    (false, None)
}

/// The SARIF results of the annotations `anns`, in order, against the run's
/// rule list `rules`, and the rule list after them. `dead` are the dead-code
/// rule ids. A dead-code annotation takes the configured level of its rule,
/// including a rule an earlier annotation added with the level it earned;
/// every annotation whose rule the list lacks adds it.
pub fn plan_annotation_results(anns: &Vec<SarifAnnotation>, rules: Vec<RunRule>, dead: &Vec<String>) -> (r: (
    Vec<SarifResultPlan>,
    Vec<RunRule>,
))
    ensures
        r.0@.len() == anns@.len(),
        forall|k: int|
            0 <= k < anns@.len() ==> plan_of(
                #[trigger] r.0@[k],
                anns@[k],
                rules_after(rule_views(rules@), anns@.take(k), string_views_of(dead@)),
                string_views_of(dead@),
            ),
        rule_views(r.1@) == rules_after(rule_views(rules@), anns@, string_views_of(dead@)),
{
    let ghost r0 = rule_views(rules@);
    let ghost dv = string_views_of(dead@);
    let mut cur = rules;
    let mut plans: Vec<SarifResultPlan> = Vec::new();
    let mut k: usize = 0;
    assert(anns@.take(0) =~= Seq::<SarifAnnotation>::empty());
    while k < anns.len()
        invariant
            k <= anns@.len(),
            dv == string_views_of(dead@),
            rule_views(cur@) == rules_after(r0, anns@.take(k as int), dv),
            plans@.len() == k,
            forall|j: int|
                0 <= j < k ==> plan_of(#[trigger] plans@[j], anns@[j], rules_after(r0, anns@.take(j), dv), dv),
        decreases anns@.len() - k,
    {
        let a = &anns[k];
        let ghost prev = rule_views(cur@);
        let id = native_rule_id(a.title.as_str());
        let is_dead = holds_str(dead, id.as_str());
        let (known, configured) = lookup_rule(&cur, id.as_str());
        let plan = match &configured {
            Some(c) => annotation_result(a, is_dead, Some(c.as_str())),
            None => annotation_result(a, is_dead, None),
        };
        let ghost t = anns@.take(k as int + 1);
        assert(t.drop_last() =~= anns@.take(k as int));
        assert(t.last() == anns@[k as int]);
        if !known {
            let mut level = String::new();
            push_str(&mut level, plan.level.as_str());
            let ghost before = cur@;
            cur.push(RunRule { id, level: Some(level) });
            assert(rule_views(cur@) =~= prev.push(rule_view(cur@[cur@.len() - 1])));
        }
        plans.push(plan);
        k = k + 1;
    }
    assert(anns@.take(anns@.len() as int) =~= anns@);
    (plans, cur)
}

} // verus!
