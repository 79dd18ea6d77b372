//! The registry of live spawned children that signal cleanup terminates.
//!
//! Entries are keyed by a monotonic counter rather than by process id, because
//! process ids are recycled and a recycled id would collide with an entry that
//! was already removed. The first drain wins: a second signal during shutdown
//! finds the registry already draining and does nothing.
use vstd::prelude::*;
use std::collections::HashMap;
use rustc_hash::FxBuildHasher;

verus! {

/// `rustc_hash::FxBuildHasher`, the deterministic hasher of `FxHashMap`.
#[verifier::external_type_specification]
#[verifier::external_body]
pub struct ExFxBuildHasher(rustc_hash::FxBuildHasher);

/// What signal cleanup terminates for one registration.
#[derive(Debug, Clone, Copy, PartialEq, Eq, Structural)]
pub enum KillTarget {
    /// A single process.
    Process(u32),
    /// A dedicated process group whose leader has this id.
    ProcessTree(u32),
}

/// The live registrations, keyed by a monotonic id.
pub struct KillRegistry {
    next_id: u64,
    targets: HashMap<u64, KillTarget, FxBuildHasher>,
    draining: bool,
}

impl View for KillRegistry {
    type V = Map<u64, KillTarget>;

    closed spec fn view(&self) -> Map<u64, KillTarget> {
        self.targets@
    }
}

/// Calls `HashMap::insert` on an `FxHashMap`: afterwards the map holds
/// `target` under `id` and is otherwise unchanged.
#[verifier::external_body]
fn fx_insert(m: &mut HashMap<u64, KillTarget, FxBuildHasher>, id: u64, target: KillTarget)
    ensures
        final(m)@ == old(m)@.insert(id, target),
{
    m.insert(id, target);
}

/// Calls `HashMap::remove` on an `FxHashMap`: afterwards the map holds no
/// entry for `id` and is otherwise unchanged.
#[verifier::external_body]
fn fx_remove(m: &mut HashMap<u64, KillTarget, FxBuildHasher>, id: u64)
    ensures
        final(m)@ == old(m)@.remove(id),
{
    m.remove(&id);
}

/// Calls `HashMap::get` on an `FxHashMap`: the target held under `id`, if any.
#[verifier::external_body]
fn fx_get(m: &HashMap<u64, KillTarget, FxBuildHasher>, id: u64) -> (r: Option<KillTarget>)
    ensures
        r == (if m@.contains_key(id) {
            Some(m@[id])
        } else {
            None
        }),
{
    m.get(&id).copied()
}

/// A registry map with no entries.
pub open spec fn no_targets() -> Map<u64, KillTarget> {
    Map::empty()
}

/// Calls `HashMap::drain` on an `FxHashMap` and keeps the targets: every
/// entry's target once, in the order the map is walked (left open), and the
/// map is empty afterwards.
#[verifier::external_body]
fn fx_drain_targets(m: &mut HashMap<u64, KillTarget, FxBuildHasher>) -> (r: Vec<KillTarget>)
    ensures
        final(m)@ == no_targets(),
        r@.len() == old(m)@.dom().len(),
        r@.to_set() == old(m)@.values(),
{
    m.drain().map(|(_id, target)| target).collect()
}

impl KillRegistry {
    /// The id the next registration receives.
    pub closed spec fn next(&self) -> u64 {
        self.next_id
    }

    /// Whether a drain has already run.
    pub closed spec fn drained(&self) -> bool {
        self.draining
    }

    /// Every registered id is positive and below the next id to hand out.
    pub closed spec fn wf(&self) -> bool {
        &&& self.next_id >= 1
        &&& forall|id: u64| #[trigger] self.targets@.contains_key(id) ==> 1 <= id < self.next_id
    }

    #[verifier::type_invariant]
    spec fn registry_invariant(self) -> bool {
        self.wf()
    }

    /// Whether another id can be handed out.
    pub fn can_register(&self) -> (r: bool)
        ensures
            r == (self.next() < u64::MAX),
    {
        self.next_id < u64::MAX
    }

    /// An empty registry whose first id is 1.
    pub fn new() -> (r: KillRegistry)
        ensures
            r.wf(),
            r@ == Map::<u64, KillTarget>::empty(),
            r.next() == 1,
            !r.drained(),
    {
        KillRegistry { next_id: 1, targets: HashMap::default(), draining: false }
    }

    /// Register `target` under a fresh id, and return the id.
    pub fn register_target(&mut self, target: KillTarget) -> (id: u64)
        requires
            old(self).next() < u64::MAX,
        ensures
            final(self).wf(),
            id == old(self).next(),
            id > 0,
            !old(self)@.contains_key(id),
            final(self)@ == old(self)@.insert(id, target),
            final(self).next() == id + 1,
            final(self).drained() == old(self).drained(),
    {
        proof {
            use_type_invariant(&*self);
        }
        let id = self.next_id;
        self.next_id = self.next_id + 1;
        let mut targets: HashMap<u64, KillTarget, FxBuildHasher> = HashMap::default();
        std::mem::swap(&mut targets, &mut self.targets);
        fx_insert(&mut targets, id, target);
        self.targets = targets;
        id
    }

    /// Register a single process.
    pub fn register(&mut self, pid: u32) -> (id: u64)
        requires
            old(self).next() < u64::MAX,
        ensures
            final(self).wf(),
            id == old(self).next(),
            id > 0,
            !old(self)@.contains_key(id),
            final(self)@ == old(self)@.insert(id, KillTarget::Process(pid)),
            final(self).next() == id + 1,
            final(self).drained() == old(self).drained(),
    {
        self.register_target(KillTarget::Process(pid))
    }

    /// Register a dedicated process tree whose leader is `pid`.
    pub fn register_process_tree(&mut self, pid: u32) -> (id: u64)
        requires
            old(self).next() < u64::MAX,
        ensures
            final(self).wf(),
            id == old(self).next(),
            id > 0,
            !old(self)@.contains_key(id),
            final(self)@ == old(self)@.insert(id, KillTarget::ProcessTree(pid)),
            final(self).next() == id + 1,
            final(self).drained() == old(self).drained(),
    {
        self.register_target(KillTarget::ProcessTree(pid))
    }

    /// Remove the entry for `id`; removing an absent id changes nothing.
    pub fn deregister(&mut self, id: u64)
        ensures
            final(self).wf(),
            final(self)@ == old(self)@.remove(id),
            final(self).next() == old(self).next(),
            final(self).drained() == old(self).drained(),
    {
        proof {
            use_type_invariant(&*self);
        }
        let mut targets: HashMap<u64, KillTarget, FxBuildHasher> = HashMap::default();
        std::mem::swap(&mut targets, &mut self.targets);
        fx_remove(&mut targets, id);
        self.targets = targets;
    }

    /// The target registered under `id`.
    pub fn get(&self, id: u64) -> (r: Option<KillTarget>)
        ensures
            r == (if self@.contains_key(id) { Some(self@[id]) } else { None }),
    {
        fx_get(&self.targets, id)
    }

    /// Take every registered target for termination. Only the first drain
    /// returns them; it empties the registry, and every later call returns
    /// `None` without touching anything.
    pub fn drain(&mut self) -> (r: Option<Vec<KillTarget>>)
        ensures
            final(self).wf(),
            final(self).drained(),
            final(self).next() == old(self).next(),
            old(self).drained() ==> r is None && final(self)@ == old(self)@,
            !old(self).drained() ==> r is Some && final(self)@ == Map::<u64, KillTarget>::empty(),
            r matches Some(v) ==> v@.len() == old(self)@.dom().len() && v@.to_set() == old(self)@.values(),
    {
        proof {
            use_type_invariant(&*self);
        }
        if self.draining {
            return None;
        }
        self.draining = true;
        let mut targets: HashMap<u64, KillTarget, FxBuildHasher> = HashMap::default();
        std::mem::swap(&mut targets, &mut self.targets);
        let out = fx_drain_targets(&mut targets);
        self.targets = targets;
        Some(out)
    }
}


/// Registering a target and then deregistering the id it received gives back
/// exactly the registrations there were before: the fresh id collides with no
/// live entry, so removing it removes only the new one.
pub proof fn law_register_deregister_roundtrip(r: KillRegistry, target: KillTarget)
    requires
        r.wf(),
    ensures
        !r@.contains_key(r.next()),
        r@.insert(r.next(), target).remove(r.next()) == r@,
{
    assert(r@.insert(r.next(), target).remove(r.next()) =~= r@);
}

/// Deregistering is idempotent: removing an id a second time changes nothing.
pub proof fn law_deregister_idempotent(r: KillRegistry, id: u64)
    requires
        r.wf(),
    ensures
        r@.remove(id).remove(id) == r@.remove(id),
{
    assert(r@.remove(id).remove(id) =~= r@.remove(id));
}

/// Ids are handed out in increasing order: every live id lies below the id
/// the next registration receives, and a registration moves that id up by one,
/// so a later registration always receives a larger id than any earlier one.
pub proof fn law_ids_are_monotonic(r: KillRegistry, id: u64)
    requires
        r.wf(),
        r@.contains_key(id),
    ensures
        0 < id < r.next(),
{
}


/// The id to signal so that a whole process tree led by `pid` is reached:
/// the negated leader id (a process group), or `None` when `pid` does not fit
/// an `i32` and no group can be named.
pub fn process_group_target(pid: u32) -> (r: Option<i32>)
    ensures
        pid <= i32::MAX ==> r == Some((-(pid as int)) as i32),
        pid > i32::MAX ==> r is None,
{
    if pid <= i32::MAX as u32 {
        let p = pid as i32;
        Some(-p)
    } else {
        None
    }
}

/// How long a drain waits for killed targets to exit before giving up, in
/// milliseconds: longer on Windows, where termination is asynchronous.
pub fn drain_budget_ms(windows: bool) -> (r: u64)
    ensures
        r == (if windows {
            1500u64
        } else {
            500u64
        }),
{
    if windows {
        1500
    } else {
        500
    }
}

} // verus!
