//! Deep cloning of value graphs.
//!
//! Both variants recurse over the block graph and are the identity on
//! immediates. [`deep_clone_to_host`] duplicates a graph onto the host
//! heap: no-scan payloads are copied verbatim, scanned blocks are rebuilt
//! field by field through the write barrier, so the collector never sees an
//! uninitialized field. The clone is structurally equal to the original
//! ([`clone_iso`]) and occupies only freshly allocated blocks
//! ([`graph_within`] the new region), so the two graphs share no storage.
//! [`deep_clone_to_native`] duplicates a graph into natively owned memory
//! the collector never scans, modelled as an owned tree.
//!
//! Cyclic graphs are not supported: the recursion carries a fuel bound and
//! fails with a typed error when the structure is deeper than the fuel
//! ([`depth_ok`]), instead of recursing forever. Callers pass a fuel at
//! least the height of their value.

use vstd::prelude::*;

use crate::convert::BridgeError;
use crate::heap::{Heap, HEAP_LIMIT};
use crate::tag::tag_is_scanned;
use crate::value::Value;

verus! {

/// The graph under `v` is acyclic with height below `d`: immediates always
/// hold, a block spends one unit of depth, and a scanned block needs all
/// its fields bounded by the remainder.
pub open spec fn depth_ok(h: Heap, v: Value, d: nat) -> bool
    decreases d,
{
    if v.spec_is_long() {
        true
    } else if !h.valid_block(v) {
        false
    } else if d == 0 {
        false
    } else if tag_is_scanned(h.block_at(v).tag) {
        forall|k: int|
            0 <= k < h.block_at(v).words@.len() ==> depth_ok(
                h,
                Value { word: h.block_at(v).words@[k] },
                (d - 1) as nat,
            )
    } else {
        true
    }
}

/// Structural equality to depth `d` between `v1` in `h1` and `v2` in `h2`:
/// equal immediates, or blocks of equal tag and size whose scanned fields
/// are pairwise isomorphic and whose opaque payloads are identical.
pub open spec fn clone_iso(h1: Heap, v1: Value, h2: Heap, v2: Value, d: nat) -> bool
    decreases d,
{
    if v1.spec_is_long() {
        v2 == v1
    } else {
        &&& h1.valid_block(v1)
        &&& h2.valid_block(v2)
        &&& d > 0
        &&& h2.block_at(v2).tag == h1.block_at(v1).tag
        &&& h2.block_at(v2).words@.len() == h1.block_at(v1).words@.len()
        &&& if tag_is_scanned(h1.block_at(v1).tag) {
            forall|k: int|
                0 <= k < h1.block_at(v1).words@.len() ==> clone_iso(
                    h1,
                    Value { word: h1.block_at(v1).words@[k] },
                    h2,
                    Value { word: h2.block_at(v2).words@[k] },
                    (d - 1) as nat,
                )
        } else {
            h2.block_at(v2).words@ == h1.block_at(v1).words@
        }
    }
}

/// Every block of the graph under `v` (to depth `d`) has its index in
/// `[lo, hi)`: the clone's ensures instantiates this with the freshly
/// allocated region, making the two graphs disjoint in storage.
pub open spec fn graph_within(h: Heap, v: Value, lo: int, hi: int, d: nat) -> bool
    decreases d,
{
    if v.spec_is_long() {
        true
    } else {
        &&& lo <= v.spec_block_index() < hi
        &&& d > 0
        &&& (tag_is_scanned(h.block_at(v).tag) ==> forall|k: int|
            0 <= k < h.block_at(v).words@.len() ==> graph_within(
                h,
                Value { word: h.block_at(v).words@[k] },
                lo,
                hi,
                (d - 1) as nat,
            ))
    }
}

/// Depth-boundedness only reads existing blocks, so extending the heap
/// does not change it.
pub proof fn lemma_depth_ok_extend(h1: Heap, h2: Heap, v: Value, d: nat)
    requires
        h1.wf(),
        h1.valid_value(v),
        h1.extended_by(h2),
    ensures
        depth_ok(h1, v, d) == depth_ok(h2, v, d),
    decreases d,
{
    if !v.spec_is_long() {
        assert(h1.valid_block(v));
        assert(h2.blocks@[v.spec_block_index()] == h1.blocks@[v.spec_block_index()]);
        if d > 0 && tag_is_scanned(h1.block_at(v).tag) {
            assert(h1.block_wf(v.spec_block_index()));
            assert forall|k: int| 0 <= k < h1.block_at(v).words@.len() implies depth_ok(
                h1,
                Value { word: h1.block_at(v).words@[k] },
                (d - 1) as nat,
            ) == depth_ok(h2, Value { word: h1.block_at(v).words@[k] }, (d - 1) as nat) by {
                assert(h1.valid_word(h1.block_at(v).words@[k]));
                lemma_depth_ok_extend(h1, h2, Value { word: h1.block_at(v).words@[k] }, (d - 1) as nat);
            }
        }
    }
}

/// Structural equality between two graphs of a heap survives extending it.
pub proof fn lemma_iso_extend(h1: Heap, h2: Heap, v1: Value, v2: Value, d: nat)
    requires
        clone_iso(h1, v1, h1, v2, d),
        h1.extended_by(h2),
    ensures
        clone_iso(h2, v1, h2, v2, d),
    decreases d,
{
    if !v1.spec_is_long() {
        assert(h2.blocks@[v1.spec_block_index()] == h1.blocks@[v1.spec_block_index()]);
        assert(h2.blocks@[v2.spec_block_index()] == h1.blocks@[v2.spec_block_index()]);
        if tag_is_scanned(h1.block_at(v1).tag) {
            assert forall|k: int| 0 <= k < h1.block_at(v1).words@.len() implies clone_iso(
                h2,
                Value { word: h1.block_at(v1).words@[k] },
                h2,
                Value { word: h1.block_at(v2).words@[k] },
                (d - 1) as nat,
            ) by {
                lemma_iso_extend(
                    h1,
                    h2,
                    Value { word: h1.block_at(v1).words@[k] },
                    Value { word: h1.block_at(v2).words@[k] },
                    (d - 1) as nat,
                );
            }
        }
    }
}

/// Graph containment survives extending the heap.
pub proof fn lemma_graph_within_extend(h1: Heap, h2: Heap, v: Value, lo: int, hi: int, d: nat)
    requires
        graph_within(h1, v, lo, hi, d),
        hi <= h1.blocks@.len(),
        h1.extended_by(h2),
    ensures
        graph_within(h2, v, lo, hi, d),
    decreases d,
{
    if !v.spec_is_long() {
        assert(h2.blocks@[v.spec_block_index()] == h1.blocks@[v.spec_block_index()]);
        if tag_is_scanned(h1.block_at(v).tag) {
            assert forall|k: int| 0 <= k < h1.block_at(v).words@.len() implies graph_within(
                h2,
                Value { word: h1.block_at(v).words@[k] },
                lo,
                hi,
                (d - 1) as nat,
            ) by {
                lemma_graph_within_extend(
                    h1,
                    h2,
                    Value { word: h1.block_at(v).words@[k] },
                    lo,
                    hi,
                    (d - 1) as nat,
                );
            }
        }
    }
}

/// Graph containment is monotone in the bounds.
pub proof fn lemma_graph_within_widen(h: Heap, v: Value, lo: int, hi: int, lo2: int, hi2: int, d: nat)
    requires
        graph_within(h, v, lo, hi, d),
        lo2 <= lo,
        hi <= hi2,
    ensures
        graph_within(h, v, lo2, hi2, d),
    decreases d,
{
    if !v.spec_is_long() {
        if tag_is_scanned(h.block_at(v).tag) {
            assert forall|k: int| 0 <= k < h.block_at(v).words@.len() implies graph_within(
                h,
                Value { word: h.block_at(v).words@[k] },
                lo2,
                hi2,
                (d - 1) as nat,
            ) by {
                lemma_graph_within_widen(
                    h,
                    Value { word: h.block_at(v).words@[k] },
                    lo,
                    hi,
                    lo2,
                    hi2,
                    (d - 1) as nat,
                );
            }
        }
    }
}

/// The whole graph of a valid value lies below the heap's length.
pub proof fn lemma_graph_in_heap(h: Heap, v: Value, d: nat)
    requires
        h.wf(),
        h.valid_value(v),
        depth_ok(h, v, d),
    ensures
        graph_within(h, v, 0, h.blocks@.len() as int, d),
    decreases d,
{
    if !v.spec_is_long() {
        if tag_is_scanned(h.block_at(v).tag) {
            assert(h.block_wf(v.spec_block_index()));
            assert forall|k: int| 0 <= k < h.block_at(v).words@.len() implies graph_within(
                h,
                Value { word: h.block_at(v).words@[k] },
                0,
                h.blocks@.len() as int,
                (d - 1) as nat,
            ) by {
                assert(h.valid_word(h.block_at(v).words@[k]));
                lemma_graph_in_heap(h, Value { word: h.block_at(v).words@[k] }, (d - 1) as nat);
            }
        }
    }
}

/// Structural equality is reflexive on depth-bounded graphs.
pub proof fn lemma_iso_refl(h: Heap, v: Value, d: nat)
    requires
        h.wf(),
        h.valid_value(v),
        depth_ok(h, v, d),
    ensures
        clone_iso(h, v, h, v, d),
    decreases d,
{
    if !v.spec_is_long() {
        if tag_is_scanned(h.block_at(v).tag) {
            assert(h.block_wf(v.spec_block_index()));
            assert forall|k: int| 0 <= k < h.block_at(v).words@.len() implies clone_iso(
                h,
                Value { word: h.block_at(v).words@[k] },
                h,
                Value { word: h.block_at(v).words@[k] },
                (d - 1) as nat,
            ) by {
                assert(h.valid_word(h.block_at(v).words@[k]));
                lemma_iso_refl(h, Value { word: h.block_at(v).words@[k] }, (d - 1) as nat);
            }
        }
    }
}

/// Disjoint storage: a heap change confined to blocks outside `[lo, hi)`
/// leaves a graph lying within `[lo, hi)` structurally unchanged. With the
/// clone's freshness this is the two-sided independence of a graph and its
/// clone: mutating the fields of one cannot affect the other.
pub proof fn lemma_graph_unchanged(h1: Heap, h2: Heap, v: Value, lo: int, hi: int, d: nat)
    requires
        h1.wf(),
        h1.valid_value(v),
        graph_within(h1, v, lo, hi, d),
        hi <= h2.blocks@.len(),
        forall|i: int| lo <= i < hi ==> h2.blocks@[i] == #[trigger] h1.blocks@[i],
    ensures
        clone_iso(h1, v, h2, v, d),
    decreases d,
{
    if !v.spec_is_long() {
        assert(h2.blocks@[v.spec_block_index()] == h1.blocks@[v.spec_block_index()]);
        if tag_is_scanned(h1.block_at(v).tag) {
            assert(h1.block_wf(v.spec_block_index()));
            assert forall|k: int| 0 <= k < h1.block_at(v).words@.len() implies clone_iso(
                h1,
                Value { word: h1.block_at(v).words@[k] },
                h2,
                Value { word: h1.block_at(v).words@[k] },
                (d - 1) as nat,
            ) by {
                assert(h1.valid_word(h1.block_at(v).words@[k]));
                lemma_graph_unchanged(
                    h1,
                    h2,
                    Value { word: h1.block_at(v).words@[k] },
                    lo,
                    hi,
                    (d - 1) as nat,
                );
            }
        }
    }
}

/// Recursively duplicates the graph under `v` onto the host heap.
/// On success the result is structurally equal to `v` and lives entirely
/// in freshly allocated blocks, so the two graphs share no storage and
/// mutating one's fields cannot affect the other. Fails with
/// `UnsupportedConversion` exactly when the graph is deeper than `fuel`
/// (in particular on cyclic graphs), and with `ResourceUnavailable` only
/// when the arena has reached its bound and cannot grow, as the final heap
/// then shows; blocks allocated before a failure stay behind as
/// unreachable garbage for the next collection.
pub fn deep_clone_to_host(h: &mut Heap, v: Value, fuel: u64) -> (r: Result<Value, BridgeError>)
    requires
        old(h).wf(),
        old(h).valid_value(v),
    ensures
        final(h).wf(),
        old(h).extended_by(*final(h)),
        match r {
            Ok(c) => {
                &&& depth_ok(*old(h), v, fuel as nat)
                &&& final(h).valid_value(c)
                &&& clone_iso(*final(h), v, *final(h), c, fuel as nat)
                &&& graph_within(
                    *final(h),
                    c,
                    old(h).blocks@.len() as int,
                    final(h).blocks@.len() as int,
                    fuel as nat,
                )
            },
            Err(e) => (e == BridgeError::UnsupportedConversion && !depth_ok(
                *old(h),
                v,
                fuel as nat,
            )) || (e == BridgeError::ResourceUnavailable && final(h).blocks@.len()
                >= HEAP_LIMIT),
        },
    decreases fuel,
{
    let ghost h0 = *old(h);
    if v.is_long() {
        return Ok(v);
    }
    if fuel == 0 {
        return Err(BridgeError::UnsupportedConversion);
    }
    let t = h.tag(v);
    let sz = h.size(v);
    let ghost len0 = h0.blocks@.len() as int;
    if crate::tag::is_scanned_tag(t) {
        let mut kids: Vec<Value> = Vec::new();
        let mut k: usize = 0;
        while k < sz
            invariant
                h0 == *old(h),
                h.wf(),
                h0.wf(),
                h0.extended_by(*h),
                h0.valid_block(v),
                fuel >= 1,
                len0 == h0.blocks@.len(),
                t == h0.block_at(v).tag,
                tag_is_scanned(t),
                sz == h0.block_at(v).words@.len(),
                k <= sz,
                kids@.len() == k,
                forall|j: int|
                    0 <= j < k ==> depth_ok(
                        h0,
                        Value { word: h0.block_at(v).words@[j] },
                        (fuel - 1) as nat,
                    ),
                forall|j: int|
                    0 <= j < k ==> clone_iso(
                        *h,
                        Value { word: h0.block_at(v).words@[j] },
                        *h,
                        #[trigger] kids@[j],
                        (fuel - 1) as nat,
                    ),
                forall|j: int|
                    0 <= j < k ==> graph_within(
                        *h,
                        #[trigger] kids@[j],
                        len0,
                        h.blocks@.len() as int,
                        (fuel - 1) as nat,
                    ),
                forall|j: int| 0 <= j < k ==> h.valid_value(#[trigger] kids@[j]),
            decreases sz - k,
        {
            let ghost hpre = *h;
            proof {
                assert(h.valid_block(v));
                assert(h.block_at(v) == h0.block_at(v));
            }
            let cv = h.field(v, k);
            proof {
                assert(h0.block_wf(v.spec_block_index()));
                assert(h0.valid_word(h0.block_at(v).words@[k as int]));
            }
            let res = deep_clone_to_host(h, cv, fuel - 1);
            match res {
                Ok(c) => {
                    proof {
                        // The recursive call only extended the heap, so the
                        // earlier clones and their freshness are untouched.
                        assert forall|j: int| 0 <= j < k implies clone_iso(
                            *h,
                            Value { word: h0.block_at(v).words@[j] },
                            *h,
                            #[trigger] kids@[j],
                            (fuel - 1) as nat,
                        ) by {
                            lemma_iso_extend(
                                hpre,
                                *h,
                                Value { word: h0.block_at(v).words@[j] },
                                kids@[j],
                                (fuel - 1) as nat,
                            );
                        }
                        assert forall|j: int| 0 <= j < k implies graph_within(
                            *h,
                            #[trigger] kids@[j],
                            len0,
                            h.blocks@.len() as int,
                            (fuel - 1) as nat,
                        ) by {
                            lemma_graph_within_extend(
                                hpre,
                                *h,
                                kids@[j],
                                len0,
                                hpre.blocks@.len() as int,
                                (fuel - 1) as nat,
                            );
                            lemma_graph_within_widen(
                                *h,
                                kids@[j],
                                len0,
                                hpre.blocks@.len() as int,
                                len0,
                                h.blocks@.len() as int,
                                (fuel - 1) as nat,
                            );
                        }
                        assert forall|j: int| 0 <= j < k implies h.valid_value(
                            #[trigger] kids@[j],
                        ) by {
                            crate::heap::lemma_valid_word_extended(hpre, *h, kids@[j].word);
                        }
                        // The new clone's depth bound transfers back to the
                        // entry heap.
                        lemma_depth_ok_extend(h0, hpre, cv, (fuel - 1) as nat);
                        crate::heap::lemma_extended_by_trans(h0, hpre, *h);
                        // widen the new clone's region
                        lemma_graph_within_widen(
                            *h,
                            c,
                            hpre.blocks@.len() as int,
                            h.blocks@.len() as int,
                            len0,
                            h.blocks@.len() as int,
                            (fuel - 1) as nat,
                        );
                    }
                    kids.push(c);
                },
                Err(e) => {
                    proof {
                        if e == BridgeError::UnsupportedConversion {
                            lemma_depth_ok_extend(h0, hpre, cv, (fuel - 1) as nat);
                            assert(!depth_ok(h0, cv, (fuel - 1) as nat));
                            assert(cv == Value { word: h0.block_at(v).words@[k as int] });
                            assert(!depth_ok(h0, v, fuel as nat));
                        }
                        crate::heap::lemma_extended_by_trans(h0, hpre, *h);
                    }
                    return Err(e);
                },
            }
            k += 1;
        }
        // All children bounded: the source is depth-bounded.
        proof {
            assert(depth_ok(h0, v, fuel as nat));
        }
        if (h.blocks.len() as u64) >= HEAP_LIMIT {
            return Err(BridgeError::ResourceUnavailable);
        }
        let ghost hk = *h;
        let b = h.alloc_block(sz, t);
        let mut k2: usize = 0;
        while k2 < sz
            invariant
                h.wf(),
                hk.wf(),
                fuel >= 1,
                sz == kids@.len(),
                k2 <= sz,
                tag_is_scanned(t),
                h.blocks@.len() == hk.blocks@.len() + 1,
                b.spec_is_block_ref(),
                b.spec_block_index() == hk.blocks@.len(),
                h.valid_block(b),
                h.block_at(b).tag == t,
                h.block_at(b).words@.len() == sz,
                forall|i: int|
                    0 <= i < hk.blocks@.len() ==> (*h).blocks@[i] == #[trigger] hk.blocks@[i],
                h.roots@ == hk.roots@,
                forall|j: int| 0 <= j < k2 ==> h.block_at(b).words@[j] == (#[trigger] kids@[j]).word,
                forall|j: int| 0 <= j < sz ==> hk.valid_value(#[trigger] kids@[j]),
            decreases sz - k2,
        {
            let c = kids[k2];
            proof {
                assert(hk.valid_word(c.word));
                assert(h.valid_word(c.word)) by {
                    if c.word % 2 == 0 {
                        assert((*h).blocks@[(c.word as int) / 4] == hk.blocks@[(c.word as int) / 4]);
                    }
                }
            }
            h.store_field(b, k2, c);
            k2 += 1;
        }
        proof {
            assert(hk.extended_by(*h)) by {
                assert(forall|i: int|
                    0 <= i < hk.blocks@.len() ==> (*h).blocks@[i] == #[trigger] hk.blocks@[i]);
            }
            crate::heap::lemma_extended_by_trans(h0, hk, *h);
            // each child clone frames from hk to the final heap
            assert forall|j: int| 0 <= j < sz implies clone_iso(
                *h,
                Value { word: h0.block_at(v).words@[j] },
                *h,
                Value { word: h.block_at(b).words@[j] },
                (fuel - 1) as nat,
            ) by {
                assert(h.block_at(b).words@[j] == kids@[j].word);
                assert((Value { word: kids@[j].word }) == kids@[j]);
                lemma_iso_extend(
                    hk,
                    *h,
                    Value { word: h0.block_at(v).words@[j] },
                    kids@[j],
                    (fuel - 1) as nat,
                );
            }
            assert(h.block_at(v) == h0.block_at(v));
            assert(clone_iso(*h, v, *h, b, fuel as nat));
            assert forall|j: int| 0 <= j < sz implies graph_within(
                *h,
                Value { word: h.block_at(b).words@[j] },
                len0,
                h.blocks@.len() as int,
                (fuel - 1) as nat,
            ) by {
                assert((Value { word: h.block_at(b).words@[j] }) == kids@[j]);
                lemma_graph_within_extend(
                    hk,
                    *h,
                    kids@[j],
                    len0,
                    hk.blocks@.len() as int,
                    (fuel - 1) as nat,
                );
                lemma_graph_within_widen(
                    *h,
                    kids@[j],
                    len0,
                    hk.blocks@.len() as int,
                    len0,
                    h.blocks@.len() as int,
                    (fuel - 1) as nat,
                );
            }
            assert(graph_within(*h, b, len0, h.blocks@.len() as int, fuel as nat));
        }
        Ok(b)
    } else {
        // No-scan block: the payload is opaque bytes, copied verbatim.
        if (h.blocks.len() as u64) >= HEAP_LIMIT {
            return Err(BridgeError::ResourceUnavailable);
        }
        let b = h.alloc_block(sz, t);
        let mut k2: usize = 0;
        while k2 < sz
            invariant
                h.wf(),
                h0.wf(),
                h0.valid_block(v),
                t == h0.block_at(v).tag,
                !tag_is_scanned(t),
                sz == h0.block_at(v).words@.len(),
                k2 <= sz,
                h.blocks@.len() == h0.blocks@.len() + 1,
                b.spec_is_block_ref(),
                b.spec_block_index() == h0.blocks@.len(),
                h.valid_block(b),
                h.block_at(b).tag == t,
                h.block_at(b).words@.len() == sz,
                forall|i: int|
                    0 <= i < h0.blocks@.len() ==> (*h).blocks@[i] == #[trigger] h0.blocks@[i],
                h.roots@ == h0.roots@,
                forall|j: int|
                    0 <= j < k2 ==> h.block_at(b).words@[j] == #[trigger] h0.block_at(v).words@[j],
            decreases sz - k2,
        {
            proof {
                assert(h.valid_block(v));
                assert(h.block_at(v) == h0.block_at(v));
            }
            let w = h.raw_word(v, k2);
            h.store_raw_word(b, k2, w);
            k2 += 1;
        }
        proof {
            assert(h0.extended_by(*h)) by {
                assert(forall|i: int|
                    0 <= i < h0.blocks@.len() ==> (*h).blocks@[i] == #[trigger] h0.blocks@[i]);
            }
            assert(h.block_at(v) == h0.block_at(v));
            assert(h.block_at(b).words@ =~= h.block_at(v).words@);
            assert(clone_iso(*h, v, *h, b, fuel as nat));
            assert(graph_within(*h, b, len0, h.blocks@.len() as int, fuel as nat));
            assert(depth_ok(h0, v, fuel as nat));
        }
        Ok(b)
    }
}

/// A bridge value duplicated into natively owned memory, outside the host
/// heap: an owned tree the collector never scans.
#[derive(Debug)]
pub enum NativeVal {
    /// An immediate.
    Imm(i64),
    /// A scanned block: tag and recursively migrated fields.
    Composite { tag: u8, kids: Vec<NativeVal> },
    /// A no-scan block: tag and its verbatim payload words.
    Opaque { tag: u8, data: Vec<u64> },
}

/// Structural equality between a heap value and a native tree, to depth `d`.
pub open spec fn native_iso(h: Heap, v: Value, nv: NativeVal, d: nat) -> bool
    decreases d,
{
    match nv {
        NativeVal::Imm(n) => v.spec_is_long() && v.spec_int_val() == n,
        NativeVal::Composite { tag, kids } => {
            &&& h.valid_block(v)
            &&& d > 0
            &&& tag_is_scanned(tag)
            &&& h.block_at(v).tag == tag
            &&& h.block_at(v).words@.len() == kids@.len()
            &&& forall|k: int|
                0 <= k < kids@.len() ==> native_iso(
                    h,
                    Value { word: h.block_at(v).words@[k] },
                    #[trigger] kids@[k],
                    (d - 1) as nat,
                )
        },
        NativeVal::Opaque { tag, data } => {
            &&& h.valid_block(v)
            &&& d > 0
            &&& !tag_is_scanned(tag)
            &&& h.block_at(v).tag == tag
            &&& h.block_at(v).words@ == data@
        },
    }
}

/// Recursively duplicates the graph under `v` into an owned native tree
/// that the host collector never scans. The heap is untouched. Fails with
/// `UnsupportedConversion` exactly when the graph is deeper than `fuel`
/// (in particular on cyclic graphs).
pub fn deep_clone_to_native(h: &Heap, v: Value, fuel: u64) -> (r: Result<NativeVal, BridgeError>)
    requires
        h.wf(),
        h.valid_value(v),
    ensures
        match r {
            Ok(nv) => depth_ok(*h, v, fuel as nat) && native_iso(*h, v, nv, fuel as nat),
            Err(e) => e == BridgeError::UnsupportedConversion && !depth_ok(*h, v, fuel as nat),
        },
    decreases fuel,
{
    if v.is_long() {
        let n = v.int_val();
        return Ok(NativeVal::Imm(n));
    }
    if fuel == 0 {
        return Err(BridgeError::UnsupportedConversion);
    }
    let t = h.tag(v);
    let sz = h.size(v);
    if crate::tag::is_scanned_tag(t) {
        let mut kids: Vec<NativeVal> = Vec::new();
        let mut k: usize = 0;
        while k < sz
            invariant
                h.wf(),
                h.valid_block(v),
                fuel >= 1,
                t == h.block_at(v).tag,
                tag_is_scanned(t),
                sz == h.block_at(v).words@.len(),
                k <= sz,
                kids@.len() == k,
                forall|j: int|
                    0 <= j < k ==> depth_ok(
                        *h,
                        Value { word: h.block_at(v).words@[j] },
                        (fuel - 1) as nat,
                    ),
                forall|j: int|
                    0 <= j < k ==> native_iso(
                        *h,
                        Value { word: h.block_at(v).words@[j] },
                        #[trigger] kids@[j],
                        (fuel - 1) as nat,
                    ),
            decreases sz - k,
        {
            let cv = h.field(v, k);
            match deep_clone_to_native(h, cv, fuel - 1) {
                Ok(nv) => {
                    kids.push(nv);
                },
                Err(e) => {
                    proof {
                        assert(!depth_ok(*h, v, fuel as nat));
                    }
                    return Err(e);
                },
            }
            k += 1;
        }
        proof {
            assert(depth_ok(*h, v, fuel as nat));
        }
        Ok(NativeVal::Composite { tag: t, kids })
    } else {
        let mut data: Vec<u64> = Vec::new();
        let mut k: usize = 0;
        while k < sz
            invariant
                h.wf(),
                h.valid_block(v),
                t == h.block_at(v).tag,
                sz == h.block_at(v).words@.len(),
                k <= sz,
                data@.len() == k,
                forall|j: int| 0 <= j < k ==> data@[j] == h.block_at(v).words@[j],
            decreases sz - k,
        {
            data.push(h.raw_word(v, k));
            k += 1;
        }
        proof {
            assert(data@ =~= h.block_at(v).words@);
        }
        Ok(NativeVal::Opaque { tag: t, data })
    }
}

} // verus!
