//! What became of the narrowing requests one run received: how many of the
//! files `--changed-since` named the run actually analyzed, and when that
//! count is published.
use vstd::prelude::*;
use std::collections::HashSet;
use rustc_hash::FxBuildHasher;
use crate::text::{has_prefix, push_str};

verus! {

/// The paths a set of changed or analyzed files holds.
pub uninterp spec fn path_set(s: HashSet<String, FxBuildHasher>) -> Set<Seq<char>>;

/// The paths of a set, as a method.
pub trait PathSetView {
    spec fn paths(&self) -> Set<Seq<char>>;
}

impl PathSetView for HashSet<String, FxBuildHasher> {
    open spec fn paths(&self) -> Set<Seq<char>> {
        path_set(*self)
    }
}

/// Calls `FxHashSet::default()`: a set holding no path.
#[verifier::external_body]
fn fx_set_new() -> (r: HashSet<String, FxBuildHasher>)
    ensures
        path_set(r) == Set::<Seq<char>>::empty(),
{
    HashSet::default()
}

/// Calls `HashSet::contains` on an `FxHashSet` of paths.
#[verifier::external_body]
fn fx_set_contains(s: &HashSet<String, FxBuildHasher>, path: &str) -> (r: bool)
    ensures
        r == path_set(*s).contains(path@),
{
    s.contains(path)
}

/// Calls `HashSet::insert` on an `FxHashSet` of paths: afterwards the set
/// holds `path` besides what it held.
#[verifier::external_body]
fn fx_set_insert(s: &mut HashSet<String, FxBuildHasher>, path: String)
    ensures
        final(s).paths() == old(s).paths().insert(path@),
{
    s.insert(path);
}

/// Calls `HashSet::len` on an `FxHashSet` of paths: how many distinct paths
/// it holds.
#[verifier::external_body]
fn fx_set_len(s: &HashSet<String, FxBuildHasher>) -> (r: usize)
    ensures
        r == path_set(*s).len(),
{
    s.len()
}

/// What `dunce::simplified` may give for `path`: the path unchanged, or, for a
/// verbatim `\\?\` path that is safe to shorten (on Windows), the path without
/// that prefix.
pub open spec fn simplification(path: Seq<char>, simplified: Seq<char>) -> bool {
    simplified == path || (has_prefix(path, "\\\\?\\"@) && simplified == path.skip(4))
}

/// Calls `dunce::simplified`, which strips a verbatim prefix where that is
/// safe and otherwise returns the path unchanged; which of the two happens
/// depends on the platform, so only that it is one of them is stated.
#[verifier::external_body]
fn simplify_path(path: &str) -> (r: String)
    ensures
        simplification(path@, r@),
{
    dunce::simplified(std::path::Path::new(path)).to_string_lossy().into_owned()
}

/// An empty set of paths.
pub fn empty_paths() -> (r: HashSet<String, FxBuildHasher>)
    ensures
        path_set(r) == Set::<Seq<char>>::empty(),
{
    fx_set_new()
}

/// The changed files of an applied `--changed-since`, simplified the way the
/// result filter simplifies them; returns the set and the simplified form of
/// each file.
pub fn changed_file_set(files: &Vec<String>) -> (r: (HashSet<String, FxBuildHasher>, Vec<String>))
    ensures
        r.1@.len() == files@.len(),
        forall|k: int| 0 <= k < files@.len() ==> simplification(files@[k]@, #[trigger] r.1@[k]@),
        path_set(r.0) == Set::new(|p: Seq<char>| exists|k: int| 0 <= k < r.1@.len() && r.1@[k]@ == p),
{
    let mut set = fx_set_new();
    let mut forms: Vec<String> = Vec::new();
    let mut i: usize = 0;
    while i < files.len()
        invariant
            i <= files@.len(),
            forms@.len() == i,
            forall|k: int| 0 <= k < i ==> simplification(files@[k]@, #[trigger] forms@[k]@),
            path_set(set) == Set::new(|p: Seq<char>| exists|k: int| 0 <= k < forms@.len() && forms@[k]@ == p),
        decreases files@.len() - i,
    {
        let s = simplify_path(files[i].as_str());
        let mut copy = String::new();
        push_str(&mut copy, s.as_str());
        let ghost before = forms@;
        let ghost set_before = path_set(set);
        fx_set_insert(&mut set, copy);
        forms.push(s);
        proof {
            assert(path_set(set) =~= Set::new(|p: Seq<char>| exists|k: int| 0 <= k < forms@.len() && forms@[k]@ == p)) by {
                assert forall|p: Seq<char>| path_set(set).contains(p) implies exists|k: int| 0 <= k < forms@.len() && forms@[k]@ == p by {
                    if set_before.contains(p) {
                        let k = choose|k: int| 0 <= k < before.len() && before[k]@ == p;
                        assert(forms@[k] == before[k]);
                    } else {
                        assert(forms@[i as int]@ == p);
                    }
                }
                assert forall|p: Seq<char>| (exists|k: int| 0 <= k < forms@.len() && forms@[k]@ == p) implies path_set(set).contains(p) by {
                    let k = choose|k: int| 0 <= k < forms@.len() && forms@[k]@ == p;
                    if k < i {
                        assert(before[k] == forms@[k]);
                        assert(set_before.contains(p));
                    }
                }
            }
            assert forall|k: int| 0 <= k < i + 1 implies simplification(files@[k]@, #[trigger] forms@[k]@) by {
                if k < i {
                    assert(forms@[k] == before[k]);
                }
            }
        }
        i = i + 1;
    }
    (set, forms)
}

/// The simplified forms among `forms` that the changed set names.
pub open spec fn kept_changed(changed: Set<Seq<char>>, forms: Seq<String>) -> Set<Seq<char>> {
    Set::new(|p: Seq<char>| exists|k: int| 0 <= k < forms.len() && forms[k]@ == p && changed.contains(p))
}

/// The analyzed changed files are a union over the analyses that measured, so
/// the scope does not depend on which analysis measures first.
pub proof fn law_scope_is_order_independent(
    start: Set<Seq<char>>,
    changed: Set<Seq<char>>,
    first: Seq<String>,
    second: Seq<String>,
)
    ensures
        start.union(kept_changed(changed, first)).union(kept_changed(changed, second)) == start.union(
            kept_changed(changed, second),
        ).union(kept_changed(changed, first)),
{
    assert(start.union(kept_changed(changed, first)).union(kept_changed(changed, second)) =~= start.union(
        kept_changed(changed, second),
    ).union(kept_changed(changed, first)));
}

/// Add to `union` the files this analysis kept that the changed set names:
/// the run's analyzed changed files, whose count is the scope an applied
/// `--changed-since` reports. A changed file that discovery dropped does not
/// count, so a commit touching only a README narrows the run to nothing.
/// Returns the simplified form of each analyzed file.
pub fn measure_changed_since_scope(
    changed: &HashSet<String, FxBuildHasher>,
    analyzed: &Vec<String>,
    union: &mut HashSet<String, FxBuildHasher>,
) -> (forms: Vec<String>)
    ensures
        forms@.len() == analyzed@.len(),
        forall|k: int| 0 <= k < analyzed@.len() ==> simplification(analyzed@[k]@, #[trigger] forms@[k]@),
        final(union).paths() == old(union).paths().union(kept_changed(path_set(*changed), forms@)),
{
    let ghost start = path_set(*union);
    let mut forms: Vec<String> = Vec::new();
    let mut i: usize = 0;
    while i < analyzed.len()
        invariant
            i <= analyzed@.len(),
            forms@.len() == i,
            forall|k: int| 0 <= k < i ==> simplification(analyzed@[k]@, #[trigger] forms@[k]@),
            path_set(*union) == start.union(Set::new(|p: Seq<char>|
                exists|k: int| 0 <= k < forms@.len() && forms@[k]@ == p && path_set(*changed).contains(p))),
        decreases analyzed@.len() - i,
    {
        let s = simplify_path(analyzed[i].as_str());
        let keep = fx_set_contains(changed, s.as_str());
        let ghost before = forms@;
        let ghost set_before = path_set(*union);
        if keep {
            let mut copy = String::new();
            push_str(&mut copy, s.as_str());
            fx_set_insert(union, copy);
        }
        forms.push(s);
        proof {
            let target = start.union(Set::new(|p: Seq<char>|
                exists|k: int| 0 <= k < forms@.len() && forms@[k]@ == p && path_set(*changed).contains(p)));
            assert(path_set(*union) =~= target) by {
                assert forall|p: Seq<char>| path_set(*union).contains(p) implies target.contains(p) by {
                    if set_before.contains(p) && !start.contains(p) {
                        let k = choose|k: int| 0 <= k < before.len() && before[k]@ == p && path_set(*changed).contains(p);
                        assert(forms@[k] == before[k]);
                    } else if !set_before.contains(p) {
                        assert(forms@[i as int]@ == p);
                    }
                }
                assert forall|p: Seq<char>| target.contains(p) implies path_set(*union).contains(p) by {
                    if !start.contains(p) {
                        let k = choose|k: int| 0 <= k < forms@.len() && forms@[k]@ == p && path_set(*changed).contains(p);
                        if k < i {
                            assert(before[k] == forms@[k]);
                            assert(set_before.contains(p));
                        }
                    }
                }
            }
            assert forall|k: int| 0 <= k < i + 1 implies simplification(analyzed@[k]@, #[trigger] forms@[k]@) by {
                if k < i {
                    assert(forms@[k] == before[k]);
                }
            }
        }
        i = i + 1;
    }
    forms
}

/// Whether a request took effect.
#[derive(Debug, Clone, Copy, PartialEq, Eq, Structural)]
pub enum RequestStatus {
    Applied,
    NotApplied,
}

/// The scope an applied `--changed-since` entry publishes: the number of
/// analyzed changed files, once some analysis measured them; nothing for a
/// request that did not apply or was never measured.
pub fn changed_since_scope_size(status: RequestStatus, measured: Option<&HashSet<String, FxBuildHasher>>) -> (r: Option<u64>)
    ensures
        match measured {
            Some(m) => status == RequestStatus::Applied ==> (r matches Some(n) && n == path_set(*m).len()),
            None => r is None,
        },
        status == RequestStatus::NotApplied ==> r is None,
{
    match measured {
        Some(m) => match status {
            RequestStatus::Applied => Some(fx_set_len(m) as u64),
            RequestStatus::NotApplied => None,
        },
        None => None,
    }
}

} // verus!
