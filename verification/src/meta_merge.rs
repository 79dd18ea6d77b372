//! Merging a second semantic batch into one run-level metadata block: every
//! query stays visible, ordered by id, and completeness never reads better
//! than either part.
use vstd::prelude::*;
use crate::meta::{SemanticCompleteness, SemanticIdentity, SemanticQuerySummary, TypeAwareMeta};
use crate::semantic_queries::{completeness_rank, merge_completeness, SemanticCapability};
use crate::text::{
    char_vec_views, chars_of, copy_str, lists, sort_order, sorted_order, str_eq, string_views_of,
};

verus! {

/// The position of a capability in the capability order.
pub open spec fn capability_rank(c: SemanticCapability) -> nat {
    match c {
        SemanticCapability::SymbolUse => 0,
        SemanticCapability::SymbolTrace => 1,
        SemanticCapability::ApiSurface => 2,
        SemanticCapability::SymbolImpact => 3,
        SemanticCapability::TypeCoupling => 4,
    }
}

fn capability_of_rank(r: usize) -> (c: SemanticCapability)
    requires
        r < 5,
    ensures
        capability_rank(c) == r,
{
    if r == 0 {
        SemanticCapability::SymbolUse
    } else if r == 1 {
        SemanticCapability::SymbolTrace
    } else if r == 2 {
        SemanticCapability::ApiSurface
    } else if r == 3 {
        SemanticCapability::SymbolImpact
    } else {
        SemanticCapability::TypeCoupling
    }
}

proof fn lemma_rank_injective(a: SemanticCapability, b: SemanticCapability)
    ensures
        capability_rank(a) == capability_rank(b) ==> a == b,
{
}

/// How many times `c` occurs in `s`.
pub open spec fn cap_count(s: Seq<SemanticCapability>, c: SemanticCapability) -> nat
    decreases s.len(),
{
    if s.len() == 0 {
        0
    } else {
        cap_count(s.drop_last(), c) + if s.last() == c {
            1nat
        } else {
            0nat
        }
    }
}

/// `s` is in capability order.
pub open spec fn rank_sorted(s: Seq<SemanticCapability>) -> bool {
    forall|i: int, j: int| 0 <= i < j < s.len() ==> capability_rank(s[i]) <= capability_rank(s[j])
}

/// The capabilities of two merged identities: the base's, plus each of the
/// overlay's that the base lacks (once), in capability order.
pub open spec fn merged_capabilities(
    out: Seq<SemanticCapability>,
    base: Seq<SemanticCapability>,
    overlay: Seq<SemanticCapability>,
) -> bool {
    &&& rank_sorted(out)
    &&& forall|c: SemanticCapability|
        #[trigger] cap_count(out, c) == cap_count(base, c) + if overlay.contains(c) && !base.contains(c) {
            1nat
        } else {
            0nat
        }
}

proof fn lemma_cap_count_push(s: Seq<SemanticCapability>, x: SemanticCapability, c: SemanticCapability)
    ensures
        cap_count(s.push(x), c) == cap_count(s, c) + if x == c {
            1nat
        } else {
            0nat
        },
{
    assert(s.push(x).drop_last() =~= s);
}

proof fn lemma_cap_count_contains(s: Seq<SemanticCapability>, c: SemanticCapability)
    ensures
        cap_count(s, c) > 0 <==> s.contains(c),
    decreases s.len(),
{
    if s.len() > 0 {
        lemma_cap_count_contains(s.drop_last(), c);
        if s.drop_last().contains(c) {
            let k = choose|k: int| 0 <= k < s.drop_last().len() && s.drop_last()[k] == c;
            assert(s[k] == c);
        }
        if s.contains(c) && s.last() != c {
            let k = choose|k: int| 0 <= k < s.len() && s[k] == c;
            assert(s.drop_last()[k] == c);
        }
    }
}

fn count_capability(s: &Vec<SemanticCapability>, c: SemanticCapability) -> (n: usize)
    ensures
        n == cap_count(s@, c),
{
    let mut n: usize = 0;
    let mut i: usize = 0;
    while i < s.len()
        invariant
            i <= s@.len(),
            n == cap_count(s@.take(i as int), c),
            n <= i,
        decreases s@.len() - i,
    {
        proof {
            assert(s@.take(i as int + 1).drop_last() =~= s@.take(i as int));
        }
        if s[i] == c {
            n = n + 1;
        }
        i = i + 1;
    }
    assert(s@.take(s@.len() as int) =~= s@);
    n
}

/// The capabilities of `base` and `overlay` merged.
pub fn merge_capabilities(base: &Vec<SemanticCapability>, overlay: &Vec<SemanticCapability>) -> (r: Vec<
    SemanticCapability,
>)
    ensures
        merged_capabilities(r@, base@, overlay@),
{
    let mut out: Vec<SemanticCapability> = Vec::new();
    let mut r: usize = 0;
    while r < 5
        invariant
            r <= 5,
            rank_sorted(out@),
            forall|i: int| 0 <= i < out@.len() ==> capability_rank(#[trigger] out@[i]) < r,
            forall|c: SemanticCapability|
                #[trigger] cap_count(out@, c) == if capability_rank(c) < r {
                    cap_count(base@, c) + if overlay@.contains(c) && !base@.contains(c) {
                        1nat
                    } else {
                        0nat
                    }
                } else {
                    0nat
                },
        decreases 5 - r,
    {
        let c = capability_of_rank(r);
        let in_base = count_capability(base, c);
        let in_overlay = count_capability(overlay, c);
        proof {
            lemma_cap_count_contains(base@, c);
            lemma_cap_count_contains(overlay@, c);
        }
        let n = if in_base == 0 && in_overlay > 0 {
            1
        } else {
            in_base
        };
        let ghost start = out@;
        let mut k: usize = 0;
        while k < n
            invariant
                k <= n,
                out@.len() == start.len() + k,
                forall|i: int| 0 <= i < start.len() ==> out@[i] == start[i],
                forall|i: int| start.len() <= i < out@.len() ==> out@[i] == c,
                forall|d: SemanticCapability|
                    #[trigger] cap_count(out@, d) == cap_count(start, d) + if d == c {
                        k as nat
                    } else {
                        0nat
                    },
            decreases n - k,
        {
            proof {
                lemma_cap_count_push(out@, c, c);
                assert forall|d: SemanticCapability| #[trigger] cap_count(out@.push(c), d) == cap_count(
                    out@,
                    d,
                ) + if c == d {
                    1nat
                } else {
                    0nat
                } by {
                    lemma_cap_count_push(out@, c, d);
                }
            }
            out.push(c);
            k = k + 1;
        }
        proof {
            assert(forall|i: int| 0 <= i < start.len() ==> capability_rank(#[trigger] start[i]) < r);
            assert(rank_sorted(start));
            assert forall|i: int| 0 <= i < out@.len() implies capability_rank(#[trigger] out@[i]) < r + 1 by {
                if i < start.len() {
                    assert(out@[i] == start[i]);
                } else {
                    assert(out@[i] == c);
                }
            }
            assert forall|i: int, j: int| 0 <= i < j < out@.len() implies capability_rank(out@[i])
                <= capability_rank(out@[j]) by {
                if j < start.len() {
                    assert(out@[i] == start[i] && out@[j] == start[j]);
                } else if i < start.len() {
                    assert(out@[i] == start[i] && out@[j] == c);
                    assert(capability_rank(start[i]) < r);
                } else {
                    assert(out@[i] == c && out@[j] == c);
                }
            }
            assert forall|d: SemanticCapability|
                #[trigger] cap_count(out@, d) == if capability_rank(d) < r + 1 {
                    cap_count(base@, d) + if overlay@.contains(d) && !base@.contains(d) {
                        1nat
                    } else {
                        0nat
                    }
                } else {
                    0nat
                } by {
                lemma_rank_injective(d, c);
            }
        }
        r = r + 1;
    }
    proof {
        assert forall|c: SemanticCapability|
            #[trigger] cap_count(out@, c) == cap_count(base@, c) + if overlay@.contains(c)
                && !base@.contains(c) {
                1nat
            } else {
                0nat
            } by {
            assert(capability_rank(c) < 5);
        }
    }
    out
}


/// The identity of two merged batches: the base's capabilities plus the
/// overlay's, and the less complete of the two completenesses.
pub open spec fn merged_identity(m: SemanticIdentity, b: SemanticIdentity, o: SemanticIdentity) -> bool {
    &&& merged_capabilities(m.capabilities@, b.capabilities@, o.capabilities@)
    &&& m.completeness == (if completeness_rank(o.completeness) > completeness_rank(b.completeness) {
        o.completeness
    } else {
        b.completeness
    })
}

/// Merge a second batch's identity into the run's: a missing overlay changes
/// nothing, a missing base takes the overlay's.
pub fn merge_semantic_identity(base: &mut Option<SemanticIdentity>, overlay: Option<SemanticIdentity>)
    ensures
        match overlay {
            None => *final(base) == *old(base),
            Some(o) => match *old(base) {
                None => *final(base) == Some(o),
                Some(b) => *final(base) matches Some(m) && merged_identity(m, b, o),
            },
        },
{
    let o = match overlay {
        None => return,
        Some(o) => o,
    };
    let mut current: Option<SemanticIdentity> = None;
    std::mem::swap(&mut current, base);
    match current {
        None => {
            *base = Some(o);
        },
        Some(b) => {
            let capabilities = merge_capabilities(&b.capabilities, &o.capabilities);
            let completeness = merge_completeness(b.completeness, o.completeness);
            *base = Some(SemanticIdentity { completeness, capabilities });
        },
    }
}

/// The ids of a list of query summaries.
pub open spec fn query_ids(qs: Seq<SemanticQuerySummary>) -> Seq<usize> {
    qs.map_values(|q: SemanticQuerySummary| q.query_id)
}

/// `order` lists every position of `ids` once, ordered by id, positions with
/// equal ids in their original order.
pub open spec fn stable_id_order(ids: Seq<usize>, order: Seq<usize>) -> bool {
    &&& order.len() == ids.len()
    &&& forall|i: int| 0 <= i < order.len() ==> #[trigger] order[i] < ids.len()
    &&& forall|i: int, j: int| 0 <= i < j < order.len() ==> #[trigger] order[i] != #[trigger] order[j]
    &&& forall|m: int| 0 <= m < ids.len() ==> #[trigger] lists(order, m)
    &&& forall|i: int, j: int|
        0 <= i < j < order.len() ==> ids[#[trigger] order[i] as int] < ids[#[trigger] order[j] as int] || (ids[order[i] as int]
            == ids[order[j] as int] && order[i] < order[j])
}

/// The positions of `ids` in stable id order (an insertion sort).
fn stable_order_by_id(ids: &Vec<usize>) -> (order: Vec<usize>)
    ensures
        stable_id_order(ids@, order@),
{
    let n = ids.len();
    let mut order: Vec<usize> = Vec::new();
    let mut i: usize = 0;
    while i < n
        invariant
            n == ids@.len(),
            i <= n,
            order@.len() == i,
            forall|q: int| 0 <= q < order@.len() ==> #[trigger] order@[q] < i,
            forall|a: int, b: int| 0 <= a < b < order@.len() ==> #[trigger] order@[a] != #[trigger] order@[b],
            forall|m: int| 0 <= m < i ==> #[trigger] lists(order@, m),
            forall|a: int, b: int|
                0 <= a < b < order@.len() ==> ids@[#[trigger] order@[a] as int] < ids@[#[trigger] order@[b] as int] || (
                ids@[order@[a] as int] == ids@[order@[b] as int] && order@[a] < order@[b]),
        decreases n - i,
    {
        let mut p: usize = 0;
        while p < order.len() && ids[order[p]] <= ids[i]
            invariant
                n == ids@.len(),
                i < n,
                p <= order@.len(),
                forall|q: int| 0 <= q < order@.len() ==> #[trigger] order@[q] < i,
                forall|q: int| 0 <= q < p ==> ids@[#[trigger] order@[q] as int] <= ids@[i as int],
            decreases order@.len() - p,
        {
            p = p + 1;
        }
        let ghost old_order = order@;
        order.insert(p, i);
        proof {
            let o = order@;
            assert(o == old_order.insert(p as int, i));
            assert forall|a: int, b: int| 0 <= a < b < o.len() implies #[trigger] o[a] != #[trigger] o[b] by {
                if a < p && b < p {
                } else if a < p && b == p {
                } else if a < p {
                    assert(o[b] == old_order[b - 1]);
                } else if a == p {
                    assert(o[b] == old_order[b - 1]);
                } else {
                    assert(o[a] == old_order[a - 1] && o[b] == old_order[b - 1]);
                }
            }
            assert forall|a: int, b: int| 0 <= a < b < o.len() implies ids@[#[trigger] o[a] as int] < ids@[#[trigger] o[b] as int] || (
                ids@[o[a] as int] == ids@[o[b] as int] && o[a] < o[b]) by {
                if b < p {
                    assert(o[a] == old_order[a] && o[b] == old_order[b]);
                } else if b == p {
                    assert(o[a] == old_order[a]);
                } else if a < p {
                    assert(o[a] == old_order[a] && o[b] == old_order[b - 1]);
                    if p <= b - 1 {
                        assert(!(ids@[old_order[p as int] as int] <= ids@[i as int]));
                        if p < b - 1 {
                            assert(ids@[old_order[p as int] as int] <= ids@[old_order[b - 1] as int]);
                        }
                    }
                } else if a == p {
                    assert(o[b] == old_order[b - 1]);
                    assert(!(ids@[old_order[p as int] as int] <= ids@[i as int]));
                    if p < b - 1 {
                        assert(ids@[old_order[p as int] as int] <= ids@[old_order[b - 1] as int]);
                    }
                } else {
                    assert(o[a] == old_order[a - 1] && o[b] == old_order[b - 1]);
                }
            }
            assert forall|m: int| 0 <= m < i + 1 implies #[trigger] lists(o, m) by {
                if m == i {
                    assert(o[p as int] == m);
                } else {
                    assert(lists(old_order, m));
                    let q0 = choose|q: int| 0 <= q < old_order.len() && old_order[q] == m;
                    if q0 < p {
                        assert(o[q0] == m);
                    } else {
                        assert(o[q0 + 1] == m);
                    }
                }
            }
            assert forall|q: int| 0 <= q < o.len() implies #[trigger] o[q] < i + 1 by {
                if q < p {
                    assert(o[q] == old_order[q]);
                } else if q > p {
                    assert(o[q] == old_order[q - 1]);
                }
            }
        }
        i = i + 1;
    }
    order
}

/// `out` is `items` arranged by `order`.
pub open spec fn arranged<T>(out: Seq<T>, items: Seq<T>, order: Seq<usize>) -> bool {
    &&& out.len() == order.len()
    &&& forall|k: int| 0 <= k < out.len() ==> #[trigger] out[k] == items[order[k] as int]
}

/// The queries of two batches together, ordered by id (stably).
pub open spec fn merged_queries(out: Seq<SemanticQuerySummary>, all: Seq<SemanticQuerySummary>) -> bool {
    exists|order: Seq<usize>| stable_id_order(query_ids(all), order) && arranged(out, all, order)
}

/// The queries of `base` followed by those of `overlay`, ordered by id.
pub fn merge_queries(base: &Vec<SemanticQuerySummary>, overlay: &Vec<SemanticQuerySummary>) -> (r: Vec<
    SemanticQuerySummary,
>)
    ensures
        merged_queries(r@, base@ + overlay@),
{
    let mut all: Vec<SemanticQuerySummary> = Vec::new();
    let mut i: usize = 0;
    while i < base.len()
        invariant
            i <= base@.len(),
            all@ == base@.take(i as int),
        decreases base@.len() - i,
    {
        all.push(base[i]);
        proof {
            assert(base@.take(i as int + 1) =~= base@.take(i as int).push(base@[i as int]));
        }
        i = i + 1;
    }
    assert(base@.take(base@.len() as int) =~= base@);
    let mut j: usize = 0;
    while j < overlay.len()
        invariant
            j <= overlay@.len(),
            all@ == base@ + overlay@.take(j as int),
        decreases overlay@.len() - j,
    {
        all.push(overlay[j]);
        proof {
            assert(base@ + overlay@.take(j as int + 1) =~= (base@ + overlay@.take(j as int)).push(
                overlay@[j as int],
            ));
        }
        j = j + 1;
    }
    assert(overlay@.take(overlay@.len() as int) =~= overlay@);
    let mut ids: Vec<usize> = Vec::new();
    let mut k: usize = 0;
    while k < all.len()
        invariant
            k <= all@.len(),
            ids@ == query_ids(all@).take(k as int),
        decreases all@.len() - k,
    {
        ids.push(all[k].query_id);
        proof {
            assert(query_ids(all@).take(k as int + 1) =~= query_ids(all@).take(k as int).push(
                all@[k as int].query_id,
            ));
        }
        k = k + 1;
    }
    assert(query_ids(all@).take(all@.len() as int) =~= query_ids(all@));
    let order = stable_order_by_id(&ids);
    let mut out: Vec<SemanticQuerySummary> = Vec::new();
    let mut q: usize = 0;
    while q < order.len()
        invariant
            q <= order@.len(),
            stable_id_order(query_ids(all@), order@),
            ids@ == query_ids(all@),
            out@.len() == q,
            forall|x: int| 0 <= x < q ==> #[trigger] out@[x] == all@[order@[x] as int],
        decreases order@.len() - q,
    {
        assert(order@[q as int] < ids@.len());
        out.push(all[order[q]]);
        q = q + 1;
    }
    assert(arranged(out@, all@, order@));
    out
}

/// `base` followed by each item of `extra` that is not already there (once).
pub open spec fn union_in_order(base: Seq<Seq<char>>, extra: Seq<Seq<char>>) -> Seq<Seq<char>>
    decreases extra.len(),
{
    if extra.len() == 0 {
        base
    } else {
        let prev = union_in_order(base, extra.drop_last());
        if prev.contains(extra.last()) {
            prev
        } else {
            prev.push(extra.last())
        }
    }
}

/// The selected configs of two batches: every config of either, once each
/// from the overlay, sorted.
pub open spec fn merged_configs(out: Seq<Seq<char>>, base: Seq<Seq<char>>, overlay: Seq<Seq<char>>) -> bool {
    exists|order: Seq<usize>|
        sorted_order(union_in_order(base, overlay), order) && arranged(out, union_in_order(base, overlay), order)
}

pub(crate) fn holds_str(v: &Vec<String>, s: &str) -> (r: bool)
    ensures
        r == string_views_of(v@).contains(s@),
{
    let mut i: usize = 0;
    while i < v.len()
        invariant
            i <= v@.len(),
            forall|j: int| 0 <= j < i ==> v@[j]@ != s@,
        decreases v@.len() - i,
    {
        if str_eq(v[i].as_str(), s) {
            assert(string_views_of(v@)[i as int] == s@);
            return true;
        }
        i = i + 1;
    }
    assert forall|j: int| 0 <= j < string_views_of(v@).len() implies string_views_of(v@)[j] != s@ by {
        assert(string_views_of(v@)[j] == v@[j]@);
    }
    false
}

/// The selected configs of `base` and `overlay` merged.
pub fn merge_configs(base: &Vec<String>, overlay: &Vec<String>) -> (r: Vec<String>)
    ensures
        merged_configs(string_views_of(r@), string_views_of(base@), string_views_of(overlay@)),
{
    let ghost bv = string_views_of(base@);
    let ghost ov = string_views_of(overlay@);
    let mut acc: Vec<String> = crate::text::copy_strings(base);
    let mut i: usize = 0;
    while i < overlay.len()
        invariant
            i <= overlay@.len(),
            bv == string_views_of(base@),
            ov == string_views_of(overlay@),
            string_views_of(acc@) == union_in_order(bv, ov.take(i as int)),
        decreases overlay@.len() - i,
    {
        let ghost prev = string_views_of(acc@);
        proof {
            assert(ov.take(i as int + 1).drop_last() =~= ov.take(i as int));
            assert(ov.take(i as int + 1).last() == overlay@[i as int]@);
        }
        if !holds_str(&acc, overlay[i].as_str()) {
            acc.push(copy_str(overlay[i].as_str()));
            assert(string_views_of(acc@) =~= prev.push(overlay@[i as int]@));
        }
        i = i + 1;
    }
    assert(ov.take(overlay@.len() as int) =~= ov);
    let ghost u = string_views_of(acc@);
    let mut keys: Vec<Vec<char>> = Vec::new();
    let mut k: usize = 0;
    while k < acc.len()
        invariant
            k <= acc@.len(),
            u == string_views_of(acc@),
            char_vec_views(keys@) == u.take(k as int),
        decreases acc@.len() - k,
    {
        let ghost prev = char_vec_views(keys@);
        keys.push(chars_of(acc[k].as_str()));
        proof {
            assert(char_vec_views(keys@) =~= prev.push(acc@[k as int]@));
            assert(u.take(k as int + 1) =~= u.take(k as int).push(u[k as int]));
        }
        k = k + 1;
    }
    assert(u.take(acc@.len() as int) =~= u);
    let order = sort_order(&keys);
    let mut out: Vec<String> = Vec::new();
    let mut q: usize = 0;
    while q < order.len()
        invariant
            q <= order@.len(),
            sorted_order(u, order@),
            u == string_views_of(acc@),
            out@.len() == q,
            forall|x: int| 0 <= x < q ==> #[trigger] string_views_of(out@)[x] == u[order@[x] as int],
        decreases order@.len() - q,
    {
        assert(order@[q as int] < u.len());
        let ghost prev = string_views_of(out@);
        out.push(copy_str(acc[order[q]].as_str()));
        proof {
            assert(string_views_of(out@) =~= prev.push(u[order@[q as int] as int]));
        }
        q = q + 1;
    }
    assert(arranged(string_views_of(out@), u, order@));
    out
}

/// Merge a second semantic batch's metadata into the run's: every query of
/// both, ordered by id; the symbol traces and impacts of both, the base's
/// first; the overlay's API surface and type coupling where it has them, the
/// base's otherwise; the selected configs of both, once each, sorted; the
/// warnings and time of both added up; the identities merged; everything else
/// as the base had it.
pub fn merge_type_aware_meta(base: &mut TypeAwareMeta, overlay: TypeAwareMeta)
    requires
        old(base).warning_count + overlay.warning_count <= usize::MAX,
        old(base).elapsed_ms + overlay.elapsed_ms <= u64::MAX,
        old(base).phase_timings_ms.project_setup + overlay.phase_timings_ms.project_setup <= u64::MAX,
        old(base).phase_timings_ms.diagnostics + overlay.phase_timings_ms.diagnostics <= u64::MAX,
        old(base).phase_timings_ms.symbol_scan + overlay.phase_timings_ms.symbol_scan <= u64::MAX,
    ensures
        merged_queries(final(base).queries@, old(base).queries@ + overlay.queries@),
        merged_configs(
            string_views_of(final(base).selected_tsconfigs@),
            string_views_of(old(base).selected_tsconfigs@),
            string_views_of(overlay.selected_tsconfigs@),
        ),
        final(base).warning_count == old(base).warning_count + overlay.warning_count,
        string_views_of(final(base).warnings@) == string_views_of(old(base).warnings@) + string_views_of(
            overlay.warnings@,
        ),
        final(base).elapsed_ms == old(base).elapsed_ms + overlay.elapsed_ms,
        final(base).phase_timings_ms.project_setup == old(base).phase_timings_ms.project_setup
            + overlay.phase_timings_ms.project_setup,
        final(base).phase_timings_ms.diagnostics == old(base).phase_timings_ms.diagnostics
            + overlay.phase_timings_ms.diagnostics,
        final(base).phase_timings_ms.symbol_scan == old(base).phase_timings_ms.symbol_scan
            + overlay.phase_timings_ms.symbol_scan,
        match overlay.identity {
            None => final(base).identity == old(base).identity,
            Some(o) => match old(base).identity {
                None => final(base).identity == Some(o),
                Some(b) => final(base).identity matches Some(m) && merged_identity(m, b, o),
            },
        },
        final(base).required_completeness == old(base).required_completeness,
        final(base).executed == old(base).executed,
        final(base).backend == old(base).backend,
        final(base).backend_version == old(base).backend_version,
        final(base).confirmed_used_count == old(base).confirmed_used_count,
        final(base).contract_preserved_count == old(base).contract_preserved_count,
        final(base).no_static_references_count == old(base).no_static_references_count,
        final(base).fix_eligible_count == old(base).fix_eligible_count,
        final(base).unresolved_count == old(base).unresolved_count,
        final(base).abstained_count == old(base).abstained_count,
        final(base).symbol_traces@ == old(base).symbol_traces@ + overlay.symbol_traces@,
        final(base).symbol_impacts@ == old(base).symbol_impacts@ + overlay.symbol_impacts@,
        final(base).api_surface == (if overlay.api_surface is Some {
            overlay.api_surface
        } else {
            old(base).api_surface
        }),
        final(base).type_coupling == (if overlay.type_coupling is Some {
            overlay.type_coupling
        } else {
            old(base).type_coupling
        }),
        final(base).protocol_version == old(base).protocol_version,
        final(base).sidecar_version == old(base).sidecar_version,
        final(base).candidate_count == old(base).candidate_count,
        final(base).abstention_reasons == old(base).abstention_reasons,
        final(base).projects@ == old(base).projects@,
{
    let queries = merge_queries(&base.queries, &overlay.queries);
    base.queries = queries;
    let configs = merge_configs(&base.selected_tsconfigs, &overlay.selected_tsconfigs);
    base.selected_tsconfigs = configs;
    base.warning_count = base.warning_count + overlay.warning_count;
    let ghost before = string_views_of(base.warnings@);
    let mut extra = overlay.warnings;
    let ghost extra_views = string_views_of(extra@);
    base.warnings.append(&mut extra);
    assert(string_views_of(base.warnings@) =~= before + extra_views);
    base.elapsed_ms = base.elapsed_ms + overlay.elapsed_ms;
    base.phase_timings_ms.project_setup = base.phase_timings_ms.project_setup
        + overlay.phase_timings_ms.project_setup;
    base.phase_timings_ms.diagnostics = base.phase_timings_ms.diagnostics
        + overlay.phase_timings_ms.diagnostics;
    base.phase_timings_ms.symbol_scan = base.phase_timings_ms.symbol_scan
        + overlay.phase_timings_ms.symbol_scan;
    let mut traces = overlay.symbol_traces;
    base.symbol_traces.append(&mut traces);
    let mut impacts = overlay.symbol_impacts;
    base.symbol_impacts.append(&mut impacts);
    if overlay.api_surface.is_some() {
        base.api_surface = overlay.api_surface;
    }
    if overlay.type_coupling.is_some() {
        base.type_coupling = overlay.type_coupling;
    }
    merge_semantic_identity(&mut base.identity, overlay.identity);
}

/// Merging never loses or invents a query: the merged list holds exactly the
/// queries of both batches, as many as both had, ordered by id.
pub proof fn law_merge_keeps_every_query(
    out: Seq<SemanticQuerySummary>,
    base: Seq<SemanticQuerySummary>,
    overlay: Seq<SemanticQuerySummary>,
)
    requires
        merged_queries(out, base + overlay),
    ensures
        out.len() == base.len() + overlay.len(),
        forall|q: SemanticQuerySummary| out.contains(q) <==> (base.contains(q) || overlay.contains(q)),
        forall|i: int, j: int| 0 <= i < j < out.len() ==> out[i].query_id <= out[j].query_id,
{
    let all = base + overlay;
    let order = choose|order: Seq<usize>| stable_id_order(query_ids(all), order) && arranged(out, all, order);
    assert forall|q: SemanticQuerySummary| out.contains(q) <==> (base.contains(q) || overlay.contains(q)) by {
        if out.contains(q) {
            let k = choose|k: int| 0 <= k < out.len() && out[k] == q;
            let m = order[k] as int;
            assert(all[m] == q);
            if m < base.len() {
                assert(base[m] == q);
            } else {
                assert(overlay[m - base.len()] == q);
            }
        }
        if base.contains(q) || overlay.contains(q) {
            let m = if base.contains(q) {
                choose|m: int| 0 <= m < base.len() && base[m] == q
            } else {
                base.len() + choose|m: int| 0 <= m < overlay.len() && overlay[m] == q
            };
            assert(all[m] == q);
            assert(lists(order, m));
            let k = choose|k: int| 0 <= k < order.len() && order[k] == m;
            assert(out[k] == q);
        }
    }
    assert forall|i: int, j: int| 0 <= i < j < out.len() implies out[i].query_id <= out[j].query_id by {
        assert(out[i] == all[order[i] as int] && out[j] == all[order[j] as int]);
        assert(query_ids(all)[order[i] as int] == all[order[i] as int].query_id);
        assert(query_ids(all)[order[j] as int] == all[order[j] as int].query_id);
    }
}

/// A merged identity is never more complete than either part, and exercises
/// exactly the capabilities of both.
pub proof fn law_merge_is_conservative(m: SemanticIdentity, b: SemanticIdentity, o: SemanticIdentity)
    requires
        merged_identity(m, b, o),
    ensures
        completeness_rank(m.completeness) >= completeness_rank(b.completeness),
        completeness_rank(m.completeness) >= completeness_rank(o.completeness),
        forall|c: SemanticCapability|
            m.capabilities@.contains(c) <==> (b.capabilities@.contains(c) || o.capabilities@.contains(c)),
{
    assert forall|c: SemanticCapability|
        m.capabilities@.contains(c) <==> (b.capabilities@.contains(c) || o.capabilities@.contains(c)) by {
        lemma_cap_count_contains(m.capabilities@, c);
        lemma_cap_count_contains(b.capabilities@, c);
        assert(cap_count(m.capabilities@, c) == cap_count(b.capabilities@, c) + if o.capabilities@.contains(c)
            && !b.capabilities@.contains(c) {
            1nat
        } else {
            0nat
        });
    }
}

} // verus!
