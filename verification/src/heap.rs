//! A model of the host garbage collector's heap.
//!
//! Blocks live in an arena; a block reference is the arena index encoded in
//! a [`Value`] word. Every block carries a tag, a liveness flag, and its
//! payload words. The well-formedness invariant [`Heap::wf`] states that
//! every payload word of a live *scanned* block is itself a valid value:
//! an immediate, or a reference to a live block. Writes to scanned blocks
//! go through [`Heap::store_field`], the write barrier that maintains this
//! invariant; no raw store into a scanned block exists.
//!
//! The heap also owns the process-wide root table: values registered by
//! [`Heap::register_global_root`] are treated as always reachable by the
//! collector. The table is empty at startup and exposes only insert and
//! remove.

use vstd::prelude::*;

use crate::tag::{tag_is_scanned, TAG_ABSTRACT, TAG_CUSTOM, TAG_STRING, TAG_TUPLE};
use crate::value::Value;

verus! {

/// Upper bound on the number of blocks: indices up to this bound can be
/// encoded as block references.
pub const HEAP_LIMIT: u64 = 0x4000_0000_0000_0000;

/// Largest word count for which the fast small-allocation path may be used.
pub const MAX_SMALL: usize = 256;

/// One heap block: a header and the payload words. The header carries the
/// tag, the liveness flag (the model of the collector's color bits, owned
/// entirely by the collector), and the finalization data.
#[derive(Debug)]
pub struct Block {
    pub tag: u8,
    pub live: bool,
    /// Whether this block was created as a finalized block: when it
    /// becomes unreachable, collection surrenders its `native_id` so the
    /// owned native value is released.
    pub finalized: bool,
    /// Identifier of the native value owned by a finalized block.
    pub native_id: u64,
    pub words: Vec<u64>,
}

impl Block {
    pub open spec fn size(self) -> nat {
        self.words@.len()
    }
}

/// The host heap: the block arena and the global root table.
#[derive(Debug)]
pub struct Heap {
    pub blocks: Vec<Block>,
    pub roots: Vec<Value>,
}

impl Heap {
    /// A word is a valid value: an immediate, or a reference to a live
    /// block of this heap.
    pub open spec fn valid_word(self, w: u64) -> bool {
        if w % 2 == 1 {
            true
        } else {
            &&& w % 4 == 0
            &&& (w as int) / 4 < self.blocks@.len()
            &&& self.blocks@[(w as int) / 4].live
        }
    }

    pub open spec fn valid_value(self, v: Value) -> bool {
        self.valid_word(v.word)
    }

    /// `v` refers to a live block of this heap.
    pub open spec fn valid_block(self, v: Value) -> bool {
        &&& v.spec_is_block_ref()
        &&& v.spec_block_index() < self.blocks@.len()
        &&& self.blocks@[v.spec_block_index()].live
    }

    /// The block `v` refers to.
    pub open spec fn block_at(self, v: Value) -> Block {
        self.blocks@[v.spec_block_index()]
    }

    /// A live scanned block holds only valid values.
    pub open spec fn block_wf(self, i: int) -> bool {
        (self.blocks@[i].live && tag_is_scanned(self.blocks@[i].tag)) ==> forall|j: int|
            0 <= j < self.blocks@[i].words@.len() ==> self.valid_word(
                #[trigger] self.blocks@[i].words@[j],
            )
    }

    /// The root table holds valid values, each registered at most once.
    pub open spec fn roots_wf(self) -> bool {
        &&& forall|k: int|
            0 <= k < self.roots@.len() ==> self.valid_value(#[trigger] self.roots@[k])
        &&& forall|k1: int, k2: int|
            0 <= k1 < k2 < self.roots@.len() ==> #[trigger] self.roots@[k1]
                != #[trigger] self.roots@[k2]
    }

    /// Heap well-formedness: every live scanned block's payload words are
    /// valid values, and the root table is well formed.
    pub open spec fn wf(self) -> bool {
        &&& forall|i: int| 0 <= i < self.blocks@.len() ==> self.block_wf(i)
        &&& self.roots_wf()
    }

    /// `v` is registered in the global root table.
    pub open spec fn rooted(self, v: Value) -> bool {
        self.roots@.contains(v)
    }

    /// `h2` extends this heap: all existing blocks are unchanged (new ones
    /// may have been appended) and the root table is the same.
    pub open spec fn extended_by(self, h2: Heap) -> bool {
        &&& h2.blocks@.len() >= self.blocks@.len()
        &&& forall|i: int| 0 <= i < self.blocks@.len() ==> h2.blocks@[i] == #[trigger] self.blocks@[i]
        &&& h2.roots@ == self.roots@
    }

    /// Both heaps have the same arena length and agree on which blocks are
    /// live; word validity only depends on that skeleton.
    pub open spec fn same_liveness(self, h2: Heap) -> bool {
        &&& h2.blocks@.len() == self.blocks@.len()
        &&& forall|i: int|
            0 <= i < self.blocks@.len() ==> h2.blocks@[i].live == #[trigger] self.blocks@[i].live
    }

    /// Appending one block whose own payload is well formed preserves heap
    /// well-formedness: word validity in the old blocks and in the root
    /// table only sees a larger arena with the same contents.
    proof fn lemma_wf_after_push(self, h2: Heap)
        requires
            self.wf(),
            h2.blocks@.len() == self.blocks@.len() + 1,
            forall|i: int| 0 <= i < self.blocks@.len() ==> h2.blocks@[i] == #[trigger] self.blocks@[i],
            h2.roots@ == self.roots@,
            h2.block_wf(self.blocks@.len() as int),
        ensures
            h2.wf(),
    {
        assert forall|i: int| 0 <= i < h2.blocks@.len() implies h2.block_wf(i) by {
            if i < self.blocks@.len() {
                assert(self.block_wf(i));
                if h2.blocks@[i].live && tag_is_scanned(h2.blocks@[i].tag) {
                    assert forall|j: int|
                        0 <= j < h2.blocks@[i].words@.len() implies h2.valid_word(
                        h2.blocks@[i].words@[j],
                    ) by {
                        assert(self.valid_word(self.blocks@[i].words@[j]));
                    }
                }
            }
        }
        assert forall|k: int| 0 <= k < h2.roots@.len() implies h2.valid_value(
            #[trigger] h2.roots@[k],
        ) by {
            assert(self.valid_value(self.roots@[k]));
        }
    }

    /// The heap at process startup: no blocks, no roots.
    pub fn new() -> (h: Heap)
        ensures
            h.wf(),
            h.blocks@.len() == 0,
            h.roots@.len() == 0,
    {
        Heap { blocks: Vec::new(), roots: Vec::new() }
    }

    /// Requests an `n`-word block of tag `t` from the heap. Scanned blocks
    /// come back with every payload word initialized to the unit immediate,
    /// so the collector never observes an uninitialized value-typed field.
    pub fn alloc_block(&mut self, n: usize, t: u8) -> (v: Value)
        requires
            old(self).wf(),
            old(self).blocks@.len() < HEAP_LIMIT,
        ensures
            final(self).wf(),
            old(self).extended_by(*final(self)),
            final(self).blocks@.len() == old(self).blocks@.len() + 1,
            final(self).roots@ == old(self).roots@,
            v.spec_is_block_ref(),
            v.spec_block_index() == old(self).blocks@.len(),
            final(self).valid_block(v),
            final(self).valid_value(v),
            final(self).block_at(v).tag == t,
            final(self).block_at(v).live,
            !final(self).block_at(v).finalized,
            final(self).block_at(v).words@ =~= Seq::new(n as nat, |i: int| 1u64),
    {
        let idx = self.blocks.len();
        let words = vec![1u64; n];
        self.blocks.push(Block { tag: t, live: true, finalized: false, native_id: 0, words });
        proof {
            // every fresh payload word is the unit immediate, so the new
            // block is well formed whatever its tag
            assert(self.block_wf(idx as int)) by {
                assert(forall|j: int|
                    0 <= j < self.blocks@[idx as int].words@.len()
                        ==> self.blocks@[idx as int].words@[j] == 1u64);
            }
            old(self).lemma_wf_after_push(*self);
        }
        Value::of_block_index(idx)
    }

    /// The small-object allocation path: same contract as [`Heap::alloc_block`],
    /// restricted to blocks below the platform small-object threshold.
    pub fn alloc_small(&mut self, n: usize, t: u8) -> (v: Value)
        requires
            old(self).wf(),
            old(self).blocks@.len() < HEAP_LIMIT,
            n <= MAX_SMALL,
        ensures
            final(self).wf(),
            old(self).extended_by(*final(self)),
            final(self).blocks@.len() == old(self).blocks@.len() + 1,
            final(self).roots@ == old(self).roots@,
            v.spec_is_block_ref(),
            v.spec_block_index() == old(self).blocks@.len(),
            final(self).valid_block(v),
            final(self).valid_value(v),
            final(self).block_at(v).tag == t,
            final(self).block_at(v).live,
            !final(self).block_at(v).finalized,
            final(self).block_at(v).words@ =~= Seq::new(n as nat, |i: int| 1u64),
    {
        self.alloc_block(n, t)
    }

    /// Allocates a finalized custom block owning the native value named by
    /// `native_id`: when the block becomes unreachable, a collection
    /// surrenders that identifier so the native value is dropped.
    pub fn alloc_finalized_block(&mut self, native_id: u64) -> (v: Value)
        requires
            old(self).wf(),
            old(self).blocks@.len() < HEAP_LIMIT,
        ensures
            final(self).wf(),
            old(self).extended_by(*final(self)),
            final(self).blocks@.len() == old(self).blocks@.len() + 1,
            final(self).roots@ == old(self).roots@,
            v.spec_is_block_ref(),
            v.spec_block_index() == old(self).blocks@.len(),
            final(self).valid_block(v),
            final(self).valid_value(v),
            final(self).block_at(v).tag == TAG_CUSTOM,
            final(self).block_at(v).live,
            final(self).block_at(v).finalized,
            final(self).block_at(v).native_id == native_id,
    {
        let idx = self.blocks.len();
        let words = vec![native_id];
        self.blocks.push(Block { tag: TAG_CUSTOM, live: true, finalized: true, native_id, words });
        proof {
            // a custom block is never scanned, so it is well formed as is
            old(self).lemma_wf_after_push(*self);
        }
        Value::of_block_index(idx)
    }

    /// Allocates a one-word abstract block carrying an opaque token (the
    /// model of a raw pointer the host never inspects); the referenced
    /// memory's lifetime is the caller's responsibility.
    pub fn alloc_abstract(&mut self, token: u64) -> (v: Value)
        requires
            old(self).wf(),
            old(self).blocks@.len() < HEAP_LIMIT,
        ensures
            final(self).wf(),
            old(self).extended_by(*final(self)),
            final(self).blocks@.len() == old(self).blocks@.len() + 1,
            final(self).roots@ == old(self).roots@,
            final(self).valid_block(v),
            final(self).valid_value(v),
            v.spec_block_index() == old(self).blocks@.len(),
            final(self).block_at(v).tag == TAG_ABSTRACT,
            !final(self).block_at(v).finalized,
            final(self).block_at(v).words@ =~= seq![token],
    {
        let idx = self.blocks.len();
        let words = vec![token];
        self.blocks.push(Block { tag: TAG_ABSTRACT, live: true, finalized: false, native_id: 0, words });
        proof {
            // an abstract block is never scanned, so it is well formed as is
            old(self).lemma_wf_after_push(*self);
        }
        Value::of_block_index(idx)
    }

    /// Allocates a no-scan string block holding the given bytes, one byte
    /// per payload word.
    pub fn alloc_bytes(&mut self, bytes: &Vec<u8>) -> (v: Value)
        requires
            old(self).wf(),
            old(self).blocks@.len() < HEAP_LIMIT,
        ensures
            final(self).wf(),
            old(self).extended_by(*final(self)),
            final(self).blocks@.len() == old(self).blocks@.len() + 1,
            final(self).roots@ == old(self).roots@,
            final(self).valid_block(v),
            final(self).valid_value(v),
            v.spec_block_index() == old(self).blocks@.len(),
            final(self).block_at(v).tag == TAG_STRING,
            !final(self).block_at(v).finalized,
            final(self).block_at(v).words@.len() == bytes@.len(),
            forall|j: int|
                0 <= j < bytes@.len() ==> final(self).block_at(v).words@[j] == bytes@[j] as u64,
    {
        let mut words: Vec<u64> = Vec::new();
        let mut k: usize = 0;
        while k < bytes.len()
            invariant
                k <= bytes@.len(),
                words@.len() == k,
                forall|j: int| 0 <= j < k ==> words@[j] == bytes@[j] as u64,
            decreases bytes@.len() - k,
        {
            words.push(bytes[k] as u64);
            k += 1;
        }
        let idx = self.blocks.len();
        self.blocks.push(Block { tag: TAG_STRING, live: true, finalized: false, native_id: 0, words });
        proof {
            // a string block is never scanned, so it is well formed as is
            old(self).lemma_wf_after_push(*self);
        }
        Value::of_block_index(idx)
    }

    /// Allocates the one-field block standing for `some(x)`.
    pub fn alloc_some(&mut self, x: Value) -> (v: Value)
        requires
            old(self).wf(),
            old(self).blocks@.len() < HEAP_LIMIT,
            old(self).valid_value(x),
        ensures
            final(self).wf(),
            old(self).extended_by(*final(self)),
            final(self).blocks@.len() == old(self).blocks@.len() + 1,
            final(self).valid_block(v),
            final(self).valid_value(v),
            v.spec_block_index() == old(self).blocks@.len(),
            final(self).block_at(v).tag == TAG_TUPLE,
            final(self).block_at(v).words@ =~= seq![x.word],
    {
        let b = self.alloc_block(1, TAG_TUPLE);
        proof {
            lemma_valid_word_extended(*old(self), *self, x.word);
        }
        self.store_field(b, 0, x);
        proof {
            assert(self.block_at(b).words@ =~= seq![x.word]);
        }
        b
    }

    /// Reads field `i` of a live scanned block; the result is a valid value.
    pub fn field(&self, v: Value, i: usize) -> (r: Value)
        requires
            self.wf(),
            self.valid_block(v),
            tag_is_scanned(self.block_at(v).tag),
            i < self.block_at(v).size(),
        ensures
            r.word == self.block_at(v).words@[i as int],
            self.valid_value(r),
    {
        let nblocks = self.blocks.len();
        proof { assert(v.spec_block_index() < nblocks); }
        let idx = v.block_index();
        proof {
            assert(self.block_wf(idx as int));
        }
        Value { word: self.blocks[idx].words[i] }
    }

    /// Reads a raw payload word of any live block, scanned or not; the
    /// result carries no validity guarantee.
    pub fn raw_word(&self, v: Value, i: usize) -> (w: u64)
        requires
            self.wf(),
            self.valid_block(v),
            i < self.block_at(v).size(),
        ensures
            w == self.block_at(v).words@[i as int],
    {
        let nblocks = self.blocks.len();
        proof { assert(v.spec_block_index() < nblocks); }
        let idx = v.block_index();
        self.blocks[idx].words[i]
    }

    /// The write barrier: stores a value into field `i` of a live scanned
    /// block, preserving heap well-formedness. All writes into scanned
    /// blocks go through here; no raw store exists for them.
    pub fn store_field(&mut self, v: Value, i: usize, x: Value)
        requires
            old(self).wf(),
            old(self).valid_block(v),
            tag_is_scanned(old(self).block_at(v).tag),
            i < old(self).block_at(v).size(),
            old(self).valid_value(x),
        ensures
            final(self).wf(),
            final(self).blocks@.len() == old(self).blocks@.len(),
            final(self).roots@ == old(self).roots@,
            old(self).same_liveness(*final(self)),
            forall|k: int|
                0 <= k < final(self).blocks@.len() && k != v.spec_block_index() ==> final(self).blocks@[k]
                    == #[trigger] old(self).blocks@[k],
            final(self).block_at(v).tag == old(self).block_at(v).tag,
            final(self).block_at(v).live == old(self).block_at(v).live,
            final(self).block_at(v).finalized == old(self).block_at(v).finalized,
            final(self).block_at(v).native_id == old(self).block_at(v).native_id,
            final(self).block_at(v).words@ == old(self).block_at(v).words@.update(i as int, x.word),
            final(self).valid_block(v),
            final(self).valid_value(x),
    {
        let nblocks = self.blocks.len();
        proof { assert(v.spec_block_index() < nblocks); }
        let idx = v.block_index();
        self.blocks[idx].words[i] = x.word;
        proof {
            assert forall|k: int| 0 <= k < self.blocks@.len() implies self.block_wf(k) by {
                assert(old(self).block_wf(k));
                if self.blocks@[k].live && tag_is_scanned(self.blocks@[k].tag) {
                    assert forall|j: int| 0 <= j < self.blocks@[k].words@.len() implies self.valid_word(
                        self.blocks@[k].words@[j],
                    ) by {
                        if k == idx as int && j == i as int {
                            assert(old(self).valid_word(x.word));
                            lemma_valid_word_liveness(*old(self), *self, x.word);
                        } else {
                            assert(self.blocks@[k].words@[j] == old(self).blocks@[k].words@[j]);
                            assert(old(self).valid_word(old(self).blocks@[k].words@[j]));
                            lemma_valid_word_liveness(
                                *old(self),
                                *self,
                                old(self).blocks@[k].words@[j],
                            );
                        }
                    }
                }
            }
            assert forall|k: int| 0 <= k < self.roots@.len() implies self.valid_value(
                #[trigger] self.roots@[k],
            ) by {
                assert(old(self).valid_value(old(self).roots@[k]));
                lemma_valid_word_liveness(*old(self), *self, old(self).roots@[k].word);
            }
        }
    }

    /// Stores a raw word into a live no-scan block (opaque payload bytes;
    /// the collector never interprets them).
    pub fn store_raw_word(&mut self, v: Value, i: usize, w: u64)
        requires
            old(self).wf(),
            old(self).valid_block(v),
            !tag_is_scanned(old(self).block_at(v).tag),
            i < old(self).block_at(v).size(),
        ensures
            final(self).wf(),
            final(self).blocks@.len() == old(self).blocks@.len(),
            final(self).roots@ == old(self).roots@,
            old(self).same_liveness(*final(self)),
            forall|k: int|
                0 <= k < final(self).blocks@.len() && k != v.spec_block_index() ==> final(self).blocks@[k]
                    == #[trigger] old(self).blocks@[k],
            final(self).block_at(v).tag == old(self).block_at(v).tag,
            final(self).block_at(v).live == old(self).block_at(v).live,
            final(self).block_at(v).finalized == old(self).block_at(v).finalized,
            final(self).block_at(v).native_id == old(self).block_at(v).native_id,
            final(self).block_at(v).words@ == old(self).block_at(v).words@.update(i as int, w),
            final(self).valid_block(v),
    {
        let nblocks = self.blocks.len();
        proof { assert(v.spec_block_index() < nblocks); }
        let idx = v.block_index();
        self.blocks[idx].words[i] = w;
        proof {
            assert forall|k: int| 0 <= k < self.blocks@.len() implies self.block_wf(k) by {
                assert(old(self).block_wf(k));
                if self.blocks@[k].live && tag_is_scanned(self.blocks@[k].tag) {
                    assert(k != idx as int);
                    assert forall|j: int| 0 <= j < self.blocks@[k].words@.len() implies self.valid_word(
                        self.blocks@[k].words@[j],
                    ) by {
                        assert(old(self).valid_word(old(self).blocks@[k].words@[j]));
                        lemma_valid_word_liveness(*old(self), *self, old(self).blocks@[k].words@[j]);
                    }
                }
            }
            assert forall|k: int| 0 <= k < self.roots@.len() implies self.valid_value(
                #[trigger] self.roots@[k],
            ) by {
                assert(old(self).valid_value(old(self).roots@[k]));
                lemma_valid_word_liveness(*old(self), *self, old(self).roots@[k].word);
            }
        }
    }

    /// Reads the tag of a live block. Callers must already know `v` is a
    /// block: use [`Heap::tag_checked`] for the guarded form.
    pub fn tag(&self, v: Value) -> (t: u8)
        requires
            self.wf(),
            self.valid_block(v),
        ensures
            t == self.block_at(v).tag,
    {
        let nblocks = self.blocks.len();
        proof { assert(v.spec_block_index() < nblocks); }
        let idx = v.block_index();
        self.blocks[idx].tag
    }

    /// The guarded tag read: `Some` exactly when `v` refers to a live
    /// block; asking for the tag of an immediate is rejected, never
    /// undefined behaviour.
    pub fn tag_checked(&self, v: Value) -> (r: Option<u8>)
        requires
            self.wf(),
        ensures
            match r {
                Some(t) => self.valid_block(v) && t == self.block_at(v).tag,
                None => !self.valid_block(v),
            },
    {
        if v.word % 4 == 0 {
            let idx64 = v.word / 4;
            if idx64 < self.blocks.len() as u64 {
                let idx = idx64 as usize;
                if self.blocks[idx].live {
                    return Some(self.blocks[idx].tag);
                }
            }
        }
        None
    }

    /// The word count of a live block.
    pub fn size(&self, v: Value) -> (n: usize)
        requires
            self.wf(),
            self.valid_block(v),
        ensures
            n == self.block_at(v).size(),
    {
        let nblocks = self.blocks.len();
        proof { assert(v.spec_block_index() < nblocks); }
        let idx = v.block_index();
        self.blocks[idx].words.len()
    }

    /// Whether `v` is currently registered as a global root.
    pub fn is_rooted(&self, v: Value) -> (r: bool)
        ensures
            r == self.rooted(v),
    {
        let mut k: usize = 0;
        while k < self.roots.len()
            invariant
                k <= self.roots@.len(),
                forall|j: int| 0 <= j < k ==> self.roots@[j] != v,
            decreases self.roots@.len() - k,
        {
            if self.roots[k] == v {
                return true;
            }
            k += 1;
        }
        false
    }

    /// Registers a value in the global root table, so the collector treats
    /// it as always reachable. Registering the same value twice is an
    /// invariant violation and is excluded.
    pub fn register_global_root(&mut self, v: Value)
        requires
            old(self).wf(),
            old(self).valid_value(v),
            !old(self).rooted(v),
        ensures
            final(self).wf(),
            final(self).blocks@ == old(self).blocks@,
            final(self).roots@ == old(self).roots@.push(v),
            final(self).rooted(v),
    {
        self.roots.push(v);
        proof {
            assert forall|i: int| 0 <= i < self.blocks@.len() implies self.block_wf(i) by {
                assert(old(self).block_wf(i));
            }
            assert(self.roots@[self.roots@.len() - 1] == v);
        }
    }

    /// Removes a registered root; the slot is no longer scanned. Removing
    /// a value that is not registered is an invariant violation and is
    /// excluded.
    pub fn remove_global_root(&mut self, v: Value)
        requires
            old(self).wf(),
            old(self).rooted(v),
        ensures
            final(self).wf(),
            final(self).blocks@ == old(self).blocks@,
            final(self).roots@.len() == old(self).roots@.len() - 1,
            !final(self).rooted(v),
            forall|x: Value| x != v ==> (final(self).rooted(x) == old(self).rooted(x)),
    {
        let ghost oldroots = old(self).roots@;
        let n = self.roots.len();
        let mut k: usize = 0;
        loop
            invariant
                self.roots@ == oldroots,
                self.blocks@ == old(self).blocks@,
                n == oldroots.len(),
                k < n,
                forall|j: int| 0 <= j < k ==> oldroots[j] != v,
                oldroots.contains(v),
            ensures
                self.roots@ == oldroots,
                self.blocks@ == old(self).blocks@,
                k < oldroots.len(),
                oldroots[k as int] == v,
            decreases oldroots.len() - k,
        {
            if self.roots[k] == v {
                break;
            }
            k += 1;
            proof {
                if k == n {
                    assert(exists|j: int| 0 <= j < oldroots.len() && oldroots[j] == v);
                    let w = choose|j: int| 0 <= j < oldroots.len() && oldroots[j] == v;
                    assert(oldroots[w] != v);
                    assert(false);
                }
            }
        }
        self.roots.remove(k);
        proof {
            assert(oldroots[k as int] == v);
            assert forall|i: int| 0 <= i < self.blocks@.len() implies self.block_wf(i) by {
                assert(old(self).block_wf(i));
                if self.blocks@[i].live && tag_is_scanned(self.blocks@[i].tag) {
                    assert forall|j: int| 0 <= j < self.blocks@[i].words@.len() implies self.valid_word(
                        self.blocks@[i].words@[j],
                    ) by {
                        assert(old(self).valid_word(old(self).blocks@[i].words@[j]));
                        lemma_valid_word_liveness(*old(self), *self, old(self).blocks@[i].words@[j]);
                    }
                }
            }
            assert forall|x: Value| x != v implies (self.rooted(x) == old(self).rooted(x)) by {
                lemma_seq_remove_contains(oldroots, k as int, x);
            }
            assert forall|j2: int| 0 <= j2 < self.roots@.len() implies self.valid_value(
                #[trigger] self.roots@[j2],
            ) by {
                if j2 < k {
                    assert(self.roots@[j2] == oldroots[j2]);
                } else {
                    assert(self.roots@[j2] == oldroots[j2 + 1]);
                }
                assert(old(self).roots_wf());
            }
            assert forall|k1: int, k2: int|
                0 <= k1 < k2 < self.roots@.len() implies #[trigger] self.roots@[k1]
                != #[trigger] self.roots@[k2] by {
                let a1 = if k1 < k { k1 } else { k1 + 1 };
                let a2 = if k2 < k { k2 } else { k2 + 1 };
                assert(self.roots@[k1] == oldroots[a1]);
                assert(self.roots@[k2] == oldroots[a2]);
            }
            if self.rooted(v) {
                let j = choose|j: int| 0 <= j < self.roots@.len() && self.roots@[j] == v;
                let a = if j < k { j } else { j + 1 };
                assert(oldroots[a] == v);
                assert(a != k ==> oldroots[a] != oldroots[k as int]);
                assert(false);
            }
        }
    }
}

/// Validity of a word is preserved when the heap is only extended.
pub proof fn lemma_valid_word_extended(h1: Heap, h2: Heap, w: u64)
    requires
        h1.valid_word(w),
        h1.extended_by(h2),
    ensures
        h2.valid_word(w),
{
}

/// Validity of a word only depends on the liveness skeleton of the heap.
pub proof fn lemma_valid_word_liveness(h1: Heap, h2: Heap, w: u64)
    requires
        h1.valid_word(w),
        h1.same_liveness(h2),
    ensures
        h2.valid_word(w),
{
}

/// Extension is transitive.
pub proof fn lemma_extended_by_trans(h1: Heap, h2: Heap, h3: Heap)
    requires
        h1.extended_by(h2),
        h2.extended_by(h3),
    ensures
        h1.extended_by(h3),
{
}

/// After removing index `k`, a sequence contains `x` (distinct from the
/// removed element) exactly when it did before.
proof fn lemma_seq_remove_contains(s: Seq<Value>, k: int, x: Value)
    requires
        0 <= k < s.len(),
        x != s[k],
    ensures
        s.remove(k).contains(x) == s.contains(x),
{
    if s.contains(x) {
        let j = choose|j: int| 0 <= j < s.len() && s[j] == x;
        if j < k {
            assert(s.remove(k)[j] == x);
        } else {
            assert(j > k);
            assert(s.remove(k)[j - 1] == x);
        }
    }
    if s.remove(k).contains(x) {
        let j = choose|j: int| 0 <= j < s.remove(k).len() && s.remove(k)[j] == x;
        if j < k {
            assert(s[j] == x);
        } else {
            assert(s[j + 1] == x);
        }
    }
}

} // verus!
