//! The queue of conditions: at most one entry for each condition, each
//! with its priority, and the entry of the best priority on top.
use vstd::prelude::*;
use std::collections::hash_map::RandomState;
use std::collections::HashMap;
use priority_queue::PriorityQueue;
use crate::cond_stmt::{CondStmt, CondView};
use crate::cond_stmt_base::{CondIdentity, CondStmtBase};
use crate::config::PREFER_FAST_COND;
use crate::conv::wide128;
use crate::depot::heap::{heap_change_priority, heap_new, heap_peek, heap_push, queue_items};
use crate::depot::qpriority::{lemma_rank_orders, QPriority};

verus! {

broadcast use vstd::std_specs::hash::group_hash_axioms;

/// The key under which a condition is filed: the four parts of its
/// identity side by side.
pub open spec fn key_of(id: CondIdentity) -> u128 {
    (((id.0 * 0x1_0000_0000 + id.1) * 0x1_0000_0000 + id.2) * 0x1_0000_0000 + id.3) as u128
}

/// Two identities have one key only where they are the same.
pub proof fn lemma_key_injective(a: CondIdentity, b: CondIdentity)
    ensures
        key_of(a) == key_of(b) <==> a == b,
{
}

/// The key under which a condition is filed.
pub fn cond_key(base: &CondStmtBase) -> (key: u128)
    ensures
        key == key_of(base.identity()),
{
    let a: u128 = wide128(base.cmpid);
    let b: u128 = wide128(base.context);
    let c: u128 = wide128(base.order);
    let d: u128 = wide128(base.op);
    ((a * 0x1_0000_0000u128 + b) * 0x1_0000_0000u128 + c) * 0x1_0000_0000u128 + d
}

/// What the queue holds: for each key a condition and its priority.
pub type Entries = Map<u128, (CondView, QPriority)>;

/// The entry of a condition after `cond` arrived with `distance` to the
/// nearest target. A condition that is not desirable changes nothing. A
/// new condition enters at its initial priority. Where the queue holds the
/// condition unfinished, a differing outcome shows that both sides of the
/// branch were seen and finishes it; a faster arrival with the same
/// outcome takes the place of the slower one.
pub open spec fn entry_after(
    known: Option<(CondView, QPriority)>,
    cond: CondView,
    distance: u32,
) -> Option<(CondView, QPriority)> {
    if !cond.is_desirable {
        known
    } else {
        match known {
            None => Some((cond, QPriority::initial(cond.base.op, distance))),
            Some((held, priority)) => {
                if held.is_done() {
                    known
                } else if held.base.condition != cond.base.condition {
                    Some((held.done(), QPriority::done_value()))
                } else if PREFER_FAST_COND && held.speed > cond.speed {
                    Some((cond, QPriority::initial(cond.base.op, distance)))
                } else {
                    known
                }
            },
        }
    }
}

/// The entry of `key`, if there is one.
pub open spec fn lookup(entries: Entries, key: u128) -> Option<(CondView, QPriority)> {
    if entries.contains_key(key) {
        Some(entries[key])
    } else {
        None
    }
}

/// The queue after `cond` arrived.
pub open spec fn entries_after(entries: Entries, cond: CondView, distance: u32) -> Entries {
    let key = key_of(cond.base.identity());
    match entry_after(lookup(entries, key), cond, distance) {
        Some(entry) => entries.insert(key, entry),
        None => entries,
    }
}

/// The entry of a condition after the strategy handed `cond` back with a
/// new `distance`: the condition is replaced and keeps its level, unless it
/// is discarded, which finishes it.
pub open spec fn entry_updated(known: (CondView, QPriority), cond: CondView, distance: u32) -> (
    CondView,
    QPriority,
) {
    (
        cond,
        if cond.is_discarded() {
            QPriority::done_value()
        } else {
            QPriority { level: known.1.level, distance }
        },
    )
}

pub struct CondQueue {
    heap: PriorityQueue<u128, u64, RandomState>,
    conds: HashMap<u128, (CondStmt, QPriority)>,
}

impl CondQueue {
    /// What the queue holds.
    pub closed spec fn entries(&self) -> Entries {
        Map::new(
            |key: u128| self.conds@.contains_key(key),
            |key: u128| (self.conds@[key].0@, self.conds@[key].1),
        )
    }

    /// The number by which the heap orders each key.
    pub closed spec fn ranks(&self) -> Map<u128, u64> {
        queue_items(self.heap)
    }

    /// Each entry is filed under the key of its own condition, and the heap
    /// orders the keys by the rank of their priorities.
    pub open spec fn wf(&self) -> bool {
        &&& self.ranks().dom() == self.entries().dom()
        &&& forall|key: u128| #[trigger]
            self.entries().contains_key(key) ==> {
                &&& key_of(self.entries()[key].0.base.identity()) == key
                &&& self.ranks()[key] == self.entries()[key].1.rank()
            }
    }

    /// `key` holds an entry that no entry comes before.
    pub open spec fn is_first(entries: Entries, key: u128) -> bool {
        &&& entries.contains_key(key)
        &&& forall|other: u128| #[trigger]
            entries.contains_key(other) ==> !entries[other].1.before(entries[key].1)
    }

    /// The empty queue.
    pub fn new() -> (queue: Self)
        ensures
            queue.wf(),
            queue.entries() == Map::<u128, (CondView, QPriority)>::empty(),
    {
        let queue = CondQueue { heap: heap_new(), conds: HashMap::new() };
        proof {
            assert(queue.entries() =~= Map::<u128, (CondView, QPriority)>::empty());
            assert(queue.ranks().dom() =~= queue.entries().dom());
        }
        queue
    }

    /// Number of conditions in the queue.
    pub fn len(&self) -> (n: usize)
        ensures
            n == self.entries().dom().len(),
    {
        proof {
            assert(self.entries().dom() =~= self.conds@.dom());
        }
        self.conds.len()
    }

    /// Whether the queue holds the condition that `base` names.
    pub fn contains(&self, base: &CondStmtBase) -> (b: bool)
        ensures
            b == self.entries().contains_key(key_of(base.identity())),
    {
        let key = cond_key(base);
        self.conds.contains_key(&key)
    }

    /// A copy of the entry that `base` names.
    pub fn get(&self, base: &CondStmtBase) -> (entry: Option<(CondStmt, QPriority)>)
        ensures
            match entry {
                Some((cond, priority)) => lookup(self.entries(), key_of(base.identity())) == Some(
                    (cond@, priority),
                ),
                None => lookup(self.entries(), key_of(base.identity())).is_none(),
            },
    {
        let key = cond_key(base);
        match self.conds.get(&key) {
            Some(held) => Some((held.0.clone(), held.1)),
            None => None,
        }
    }

    /// The keys of the conditions in the queue, each once.
    pub fn keys(&self) -> (keys: Vec<u128>)
        ensures
            keys@.to_set() == self.entries().dom(),
            keys@.no_duplicates(),
    {
        proof {
            assert(self.entries().dom() =~= self.conds@.dom());
        }
        crate::keys::cond_keys(&self.conds)
    }

    /// The condition filed under `key`.
    pub fn cond_of(&self, key: u128) -> (cond: Option<&CondStmt>)
        ensures
            match cond {
                Some(cond) => self.entries().contains_key(key) && self.entries()[key].0 == cond@,
                None => !self.entries().contains_key(key),
            },
    {
        match self.conds.get(&key) {
            Some(held) => Some(&held.0),
            None => None,
        }
    }

    /// Files `cond` with `priority` under its key, in place of what was
    /// there.
    fn put(&mut self, cond: CondStmt, priority: QPriority)
        requires
            old(self).wf(),
        ensures
            final(self).wf(),
            final(self).entries() == old(self).entries().insert(
                key_of(cond@.base.identity()),
                (cond@, priority),
            ),
    {
        let key = cond_key(&cond.base);
        let ghost view = cond@;
        let _ = heap_push(&mut self.heap, key, priority.to_rank());
        let _ = self.conds.insert(key, (cond, priority));
        proof {
            assert(self.entries() =~= old(self).entries().insert(key, (view, priority)));
            assert(self.ranks().dom() =~= self.entries().dom());
        }
    }

    /// Takes a condition that arrived with `distance` to the nearest target
    /// into the queue.
    pub fn add_entry(&mut self, cond: CondStmt, distance: u32)
        requires
            old(self).wf(),
        ensures
            final(self).wf(),
            final(self).entries() == entries_after(old(self).entries(), cond@, distance),
    {
        if !cond.is_desirable {
            return ;
        }
        let key = cond_key(&cond.base);
        let held = match self.conds.get(&key) {
            Some(held) => Some((held.0.clone(), held.1)),
            None => None,
        };
        match held {
            None => {
                let priority = QPriority::init_distance(cond.base.op, distance);
                self.put(cond, priority);
            },
            Some((mut known, _)) => {
                if known.is_done() {
                } else if known.base.condition != cond.base.condition {
                    known.mark_as_done();
                    self.put(known, QPriority::done());
                } else if PREFER_FAST_COND && known.speed > cond.speed {
                    let priority = QPriority::init_distance(cond.base.op, distance);
                    self.put(cond, priority);
                }
            },
        }
    }

    /// Hands out a copy of an entry that no entry comes before, and moves
    /// that entry down for the next time. A finished entry stays where it
    /// is. Returns the priority that the entry had.
    pub fn get_entry(&mut self) -> (entry: Option<(CondStmt, QPriority)>)
        requires
            old(self).wf(),
        ensures
            final(self).wf(),
            match entry {
                Some((cond, priority)) => {
                    let key = key_of(cond@.base.identity());
                    &&& Self::is_first(old(self).entries(), key)
                    &&& old(self).entries()[key] == (cond@, priority)
                    &&& final(self).entries() == old(self).entries().insert(
                        key,
                        (cond@, priority.demoted(cond@.base.op)),
                    )
                },
                None => {
                    &&& old(self).entries() == Map::<u128, (CondView, QPriority)>::empty()
                    &&& final(self).entries() == old(self).entries()
                },
            },
    {
        match heap_peek(&self.heap) {
            None => {
                proof {
                    assert(self.ranks().dom() =~= Set::<u128>::empty());
                    assert(self.entries() =~= Map::<u128, (CondView, QPriority)>::empty());
                }
                None
            },
            Some((key, rank)) => {
                proof {
                    assert(self.entries().contains_key(key));
                    assert forall|other: u128| #[trigger]
                        self.entries().contains_key(other) implies !self.entries()[other].1.before(
                        self.entries()[key].1,
                    ) by {
                        assert(self.ranks().contains_key(other));
                        lemma_rank_orders(self.entries()[other].1, self.entries()[key].1);
                    }
                }
                let held = match self.conds.get(&key) {
                    Some(held) => Some((held.0.clone(), held.1)),
                    None => None,
                };
                match held {
                    Some((cond, priority)) => {
                        if !priority.is_done() {
                            let next = priority.inc(cond.base.op);
                            let _ = heap_change_priority(&mut self.heap, key, next.to_rank());
                            let _ = self.conds.insert(key, (cond.clone(), next));
                        }
                        proof {
                            assert(self.entries() =~= old(self).entries().insert(
                                key,
                                (cond@, priority.demoted(cond@.base.op)),
                            ));
                            assert(self.ranks().dom() =~= self.entries().dom());
                        }
                        Some((cond, priority))
                    },
                    None => None,
                }
            },
        }
    }

    /// Takes back a condition from the strategy that worked on it: the
    /// entry holds the condition as it is now, at its old level and the new
    /// `distance`, or finished where the condition is discarded. Returns
    /// whether the queue holds the condition; it takes in none that it does
    /// not hold.
    pub fn update_entry(&mut self, cond: &CondStmt, distance: u32) -> (found: bool)
        requires
            old(self).wf(),
        ensures
            final(self).wf(),
            found == old(self).entries().contains_key(key_of(cond@.base.identity())),
            final(self).entries() == (if found {
                old(self).entries().insert(
                    key_of(cond@.base.identity()),
                    entry_updated(old(self).entries()[key_of(cond@.base.identity())], cond@, distance),
                )
            } else {
                old(self).entries()
            }),
    {
        let key = cond_key(&cond.base);
        let level = match self.conds.get(&key) {
            Some(held) => Some(held.1),
            None => None,
        };
        match level {
            Some(priority) => {
                let next = if cond.is_discarded() {
                    QPriority::done()
                } else {
                    priority.new_distance(distance)
                };
                self.put(cond.clone(), next);
                true
            },
            None => false,
        }
    }
}

/// The queue holds at most one entry for each condition: two entries whose
/// conditions share `(cmpid, context, order, op)` are one and the same.
pub proof fn lemma_one_entry_per_condition(queue: CondQueue, a: u128, b: u128)
    requires
        queue.wf(),
        queue.entries().contains_key(a),
        queue.entries().contains_key(b),
        queue.entries()[a].0.base.identity() == queue.entries()[b].0.base.identity(),
    ensures
        a == b,
{
}

/// An arriving condition is filed under its own key and leaves every other
/// entry as it was.
pub proof fn lemma_arrival_touches_one_entry(entries: Entries, cond: CondView, distance: u32, key: u128)
    requires
        key != key_of(cond.base.identity()),
    ensures
        lookup(entries_after(entries, cond, distance), key) == lookup(entries, key),
{
}

/// A finished condition stays finished whatever arrives.
pub proof fn lemma_done_stays_done(entries: Entries, cond: CondView, distance: u32, key: u128)
    requires
        entries.contains_key(key),
        entries[key].0.is_done(),
        key_of(entries[key].0.base.identity()) == key,
    ensures
        entries_after(entries, cond, distance).contains_key(key),
        entries_after(entries, cond, distance)[key].0.is_done(),
{
}

} // verus!
