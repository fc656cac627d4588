//! Finalized pointers: native values owned by heap blocks.
//!
//! A native value `T` handed to [`alloc_final`] is moved into a
//! [`FinalStore`] slot, and the finalized heap block records the slot's
//! identifier. The host heap exclusively owns the block's lifetime: when
//! the block becomes unreachable, [`collect_and_finalize`] takes the native
//! value out of its slot and drops it — the finalizer runs exactly once,
//! because a freed block stays dead and an emptied slot stays empty.
//! Finalizers run in block-index order within one collection, but callers
//! must not rely on any ordering across distinct pointers.

use vstd::prelude::*;

use crate::gc::collect_post;
use crate::heap::{Heap, HEAP_LIMIT};
use crate::tag::TAG_CUSTOM;
use crate::value::Value;

verus! {

/// The store of native values owned by finalized blocks: slot `i` holds
/// the native value of every block allocated with `native_id == i`. The
/// store also accumulates the resource-pressure hints handed to
/// [`alloc_final`], so an embedder holding scarce native resources can
/// collect proactively instead of waiting for heap pressure alone.
pub struct FinalStore<T> {
    pub slots: Vec<Option<T>>,
    /// Sum of the `used` hints since the last collection.
    pub pressure_used: u64,
    /// Sum of the `max` hints since the last collection.
    pub pressure_max: u64,
}

impl<T> FinalStore<T> {
    /// An empty store.
    pub fn new() -> (s: FinalStore<T>)
        ensures
            s.slots@.len() == 0,
            s.pressure_used == 0,
            s.pressure_max == 0,
    {
        FinalStore { slots: Vec::new(), pressure_used: 0, pressure_max: 0 }
    }

    /// Moves a native value into the store, returning its fresh identifier.
    pub fn put(&mut self, t: T) -> (id: u64)
        ensures
            final(self).slots@ == old(self).slots@.push(Some(t)),
            id == old(self).slots@.len(),
            final(self).pressure_used == old(self).pressure_used,
            final(self).pressure_max == old(self).pressure_max,
    {
        let id = self.slots.len() as u64;
        self.slots.push(Some(t));
        id
    }

    /// Takes the native value with identifier `id` out of the store, if it
    /// is still there; a second take of the same identifier finds nothing.
    pub fn take(&mut self, id: u64) -> (r: Option<T>)
        ensures
            final(self).pressure_used == old(self).pressure_used,
            final(self).pressure_max == old(self).pressure_max,
            id < old(self).slots@.len() ==> {
                &&& final(self).slots@ == old(self).slots@.update(id as int, Option::<T>::None)
                &&& r == old(self).slots@[id as int]
            },
            id >= old(self).slots@.len() ==> {
                &&& final(self).slots@ == old(self).slots@
                &&& r is None
            },
    {
        let n = self.slots.len();
        if id < n as u64 {
            let i = id as usize;
            let r = self.slots.remove(i);
            self.slots.insert(i, None);
            r
        } else {
            None
        }
    }

    /// Reads the native value with identifier `id`, if present.
    pub fn get(&self, id: u64) -> (r: Option<&T>)
        ensures
            match r {
                Some(t) => id < self.slots@.len() && self.slots@[id as int] == Some(*t),
                None => id >= self.slots@.len() || self.slots@[id as int] is None,
            },
    {
        let n = self.slots.len();
        if id < n as u64 {
            let i = id as usize;
            match &self.slots[i] {
                Some(t) => Some(t),
                None => None,
            }
        } else {
            None
        }
    }
}

/// Allocates a finalized block owning `t`: the native value moves into the
/// store, and the block records the slot identifier. Collection later
/// surrenders that identifier so [`collect_and_finalize`] can drop `t`.
/// The hints `used` and `max` account for the native resource's pressure —
/// `(0, 1)` treats it as cheap; a scarce resource (say, an operating-system
/// window) passes hints that make the embedder collect sooner. They
/// accumulate in the store, saturating, until a collection resets them.
pub fn alloc_final<T>(h: &mut Heap, store: &mut FinalStore<T>, t: T, used: u64, max: u64) -> (v:
    Value)
    requires
        old(h).wf(),
        old(h).blocks@.len() < HEAP_LIMIT,
    ensures
        final(h).wf(),
        old(h).extended_by(*final(h)),
        final(h).blocks@.len() == old(h).blocks@.len() + 1,
        final(h).valid_block(v),
        final(h).valid_value(v),
        v.spec_block_index() == old(h).blocks@.len(),
        final(h).block_at(v).tag == TAG_CUSTOM,
        final(h).block_at(v).finalized,
        final(h).block_at(v).native_id == old(store).slots@.len(),
        final(store).slots@ == old(store).slots@.push(Some(t)),
        final(store).pressure_used == sat_add(old(store).pressure_used, used),
        final(store).pressure_max == sat_add(old(store).pressure_max, max),
{
    let id = store.put(t);
    store.pressure_used = saturating_add_u64(store.pressure_used, used);
    store.pressure_max = saturating_add_u64(store.pressure_max, max);
    h.alloc_finalized_block(id)
}

/// Addition on the pressure counters, stopping at the top of the range.
pub open spec fn sat_add(a: u64, b: u64) -> u64 {
    if a + b <= u64::MAX {
        (a + b) as u64
    } else {
        u64::MAX
    }
}

fn saturating_add_u64(a: u64, b: u64) -> (r: u64)
    ensures
        r == sat_add(a, b),
{
    if a <= u64::MAX - b {
        a + b
    } else {
        u64::MAX
    }
}

/// Runs a collection cycle and then the finalizers: the native value owned
/// by each finalized block that became unreachable is taken out of its
/// store slot and dropped here. The surrendered identifiers are returned;
/// every other slot is untouched.
pub fn collect_and_finalize<T>(h: &mut Heap, store: &mut FinalStore<T>) -> (freed: Vec<u64>)
    requires
        old(h).wf(),
    ensures
        final(h).wf(),
        collect_post(*old(h), *final(h), freed@),
        final(store).pressure_used == 0,
        final(store).pressure_max == 0,
        final(store).slots@.len() == old(store).slots@.len(),
        forall|i: int|
            #![trigger final(store).slots@[i]]
            0 <= i < old(store).slots@.len() ==> {
                if exists|t: int| 0 <= t < freed@.len() && freed@[t] == i {
                    final(store).slots@[i] is None
                } else {
                    final(store).slots@[i] == old(store).slots@[i]
                }
            },
{
    let ids = h.collect();
    store.pressure_used = 0;
    store.pressure_max = 0;
    let nids = ids.len();
    let mut k: usize = 0;
    while k < nids
        invariant
            nids == ids@.len(),
            k <= nids,
            store.pressure_used == 0,
            store.pressure_max == 0,
            store.slots@.len() == old(store).slots@.len(),
            forall|i: int|
                #![trigger store.slots@[i]]
                0 <= i < old(store).slots@.len() ==> {
                    if exists|t: int| 0 <= t < k && ids@[t] == i {
                        store.slots@[i] is None
                    } else {
                        store.slots@[i] == old(store).slots@[i]
                    }
                },
        decreases nids - k,
    {
        let id = ids[k];
        let _dropped = store.take(id);
        k += 1;
        proof {
            assert forall|i: int|
                #![trigger store.slots@[i]]
                0 <= i < old(store).slots@.len() implies {
                if exists|t: int| 0 <= t < k && ids@[t] == i {
                    store.slots@[i] is None
                } else {
                    store.slots@[i] == old(store).slots@[i]
                }
            } by {
                if exists|t: int| 0 <= t < k && ids@[t] == i {
                    let t = choose|t: int| 0 <= t < k && ids@[t] == i;
                    if t == k - 1 {
                        assert(id == i);
                    } else {
                        assert(exists|t2: int| 0 <= t2 < k - 1 && ids@[t2] == i);
                    }
                } else {
                    assert(!(exists|t2: int| 0 <= t2 < k - 1 && ids@[t2] == i));
                }
            }
        }
    }
    ids
}

} // verus!
