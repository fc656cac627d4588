//! The event model: the closed set of native notifications marshalled to
//! the host, with their encoding contracts.
//!
//! These are the payload shapes exchanged each loop iteration. Every type
//! carries [`ToValue`]; the host-to-native direction exists only for the
//! types a host callback can actually return ([`Theme`] here, the
//! control-flow directive in the run-loop module, and the primitives), so
//! the unused directions are absent from the type system rather than
//! failing at run time. Enumeration constructors map by their position in
//! the declaration, constant constructors counted apart from
//! payload-carrying ones, matching the host runtime's representation of
//! sum types. Opaque native objects (window, device and axis identifiers)
//! travel as already-allocated bridge values. Magnitudes the native side
//! reports as floating point (coordinates, deltas, pressures, scale
//! factors) are carried as integers: the embedder chooses the rounding
//! before handing the event in, a deliberate narrowing of fidelity that
//! this contract makes explicit.

use vstd::prelude::*;

use crate::convert::{BridgeError, FromValue, ToValue};
use crate::heap::{lemma_extended_by_trans, lemma_valid_word_extended, Heap, HEAP_LIMIT};
use crate::tag::{tag_is_scanned, TAG_STRING, TAG_TUPLE};
use crate::value::{Value, MAX_INT, MIN_INT};
use crate::keycode::VirtualKeyCode;

verus! {

/// A bridge value embedded in an event (an opaque native object such as a
/// window or device identifier, already allocated): it projects to itself.
impl ToValue for Value {
    open spec fn inv(&self, h: Heap) -> bool {
        h.valid_value(*self)
    }

    open spec fn blocks_needed(&self) -> nat {
        0
    }

    open spec fn encodes(&self, h: Heap, v: Value) -> bool {
        v == *self && h.valid_value(*self)
    }

    proof fn inv_mono(&self, h1: Heap, h2: Heap) {
        lemma_valid_word_extended(h1, h2, self.word);
    }

    proof fn encodes_mono(&self, h1: Heap, h2: Heap, v: Value) {
        lemma_valid_word_extended(h1, h2, self.word);
    }

    fn to_value(&self, h: &mut Heap) -> (v: Value) {
        *self
    }
}

impl ToValue for u16 {
    open spec fn inv(&self, h: Heap) -> bool {
        true
    }

    open spec fn blocks_needed(&self) -> nat {
        0
    }

    open spec fn encodes(&self, h: Heap, v: Value) -> bool {
        v.spec_is_long() && v.spec_int_val() == *self
    }

    proof fn inv_mono(&self, h1: Heap, h2: Heap) {
    }

    proof fn encodes_mono(&self, h1: Heap, h2: Heap, v: Value) {
    }

    fn to_value(&self, h: &mut Heap) -> (v: Value) {
        Value::of_int(*self as i64)
    }
}

/// Byte strings (file paths, text input) become no-scan string blocks.
impl ToValue for Vec<u8> {
    open spec fn inv(&self, h: Heap) -> bool {
        true
    }

    open spec fn blocks_needed(&self) -> nat {
        1
    }

    open spec fn encodes(&self, h: Heap, v: Value) -> bool {
        &&& h.valid_block(v)
        &&& h.block_at(v).tag == TAG_STRING
        &&& h.block_at(v).words@.len() == self@.len()
        &&& forall|j: int| 0 <= j < self@.len() ==> h.block_at(v).words@[j] == self@[j] as u64
    }

    proof fn inv_mono(&self, h1: Heap, h2: Heap) {
    }

    proof fn encodes_mono(&self, h1: Heap, h2: Heap, v: Value) {
        assert(h2.blocks@[v.spec_block_index()] == h1.blocks@[v.spec_block_index()]);
    }

    fn to_value(&self, h: &mut Heap) -> (v: Value) {
        h.alloc_bytes(self)
    }
}


/// Allocates a 1-field scanned block of tag `t` whose fields encode the
/// given components: the shared builder behind the composite conversions.
pub fn variant1<A: ToValue>(h: &mut Heap, t: u8, a: &A) -> (v: Value)
    requires
        old(h).wf(),
        tag_is_scanned(t),
        a.inv(*old(h)),
        old(h).blocks@.len() + 1 + a.blocks_needed() <= HEAP_LIMIT,
    ensures
        final(h).wf(),
        old(h).extended_by(*final(h)),
        final(h).blocks@.len() <= old(h).blocks@.len() + 1 + a.blocks_needed(),
        final(h).valid_block(v),
        final(h).valid_value(v),
        final(h).block_at(v).tag == t,
        final(h).block_at(v).words@.len() == 1,
        a.encodes(*final(h), (Value { word: final(h).block_at(v).words@[0] })),
{
    let ghost g0 = *h;
    let v1 = a.to_value(h);
    let ghost g1 = *h;
    let blk = h.alloc_block(1, t);
    proof {
        assert(g1.extended_by(*h)) by {
            assert(forall|i: int| 0 <= i < g1.blocks@.len() ==> (*h).blocks@[i] == #[trigger] g1.blocks@[i]);
        };
        lemma_valid_word_extended(g1, *h, v1.word);
    }
    h.store_field(blk, 0, v1);
    proof {
        assert(g1.extended_by(*h)) by {
            assert(forall|i: int| 0 <= i < g1.blocks@.len() ==> (*h).blocks@[i] == #[trigger] g1.blocks@[i]);
        };
        lemma_extended_by_trans(g0, g1, *h);
        assert(h.block_at(blk).words@ =~= seq![v1.word]);
        a.encodes_mono(g1, *h, v1);
    }
    blk
}


/// Allocates a 2-field scanned block of tag `t` whose fields encode the
/// given components: the shared builder behind the composite conversions.
pub fn variant2<A: ToValue, B: ToValue>(h: &mut Heap, t: u8, a: &A, b: &B) -> (v: Value)
    requires
        old(h).wf(),
        tag_is_scanned(t),
        a.inv(*old(h)),
        b.inv(*old(h)),
        old(h).blocks@.len() + 1 + a.blocks_needed() + b.blocks_needed() <= HEAP_LIMIT,
    ensures
        final(h).wf(),
        old(h).extended_by(*final(h)),
        final(h).blocks@.len() <= old(h).blocks@.len() + 1 + a.blocks_needed() + b.blocks_needed(),
        final(h).valid_block(v),
        final(h).valid_value(v),
        final(h).block_at(v).tag == t,
        final(h).block_at(v).words@.len() == 2,
        a.encodes(*final(h), (Value { word: final(h).block_at(v).words@[0] })),
        b.encodes(*final(h), (Value { word: final(h).block_at(v).words@[1] })),
{
    let ghost g0 = *h;
    let v1 = a.to_value(h);
    let ghost g1 = *h;
    proof {
        b.inv_mono(g0, g1);
    }
    let v2 = b.to_value(h);
    let ghost g2 = *h;
    proof {
        lemma_extended_by_trans(g0, g1, g2);
        assert(g1.extended_by(g2)) by {
            assert(forall|i: int| 0 <= i < g1.blocks@.len() ==> g2.blocks@[i] == #[trigger] g1.blocks@[i]);
        };
        a.encodes_mono(g1, g2, v1);
    }
    let blk = h.alloc_block(2, t);
    proof {
        assert(g2.extended_by(*h)) by {
            assert(forall|i: int| 0 <= i < g2.blocks@.len() ==> (*h).blocks@[i] == #[trigger] g2.blocks@[i]);
        };
        lemma_valid_word_extended(g2, *h, v1.word);
    }
    h.store_field(blk, 0, v1);
    proof {
        assert(g2.extended_by(*h)) by {
            assert(forall|i: int| 0 <= i < g2.blocks@.len() ==> (*h).blocks@[i] == #[trigger] g2.blocks@[i]);
        };
        lemma_valid_word_extended(g2, *h, v2.word);
    }
    h.store_field(blk, 1, v2);
    proof {
        assert(g2.extended_by(*h)) by {
            assert(forall|i: int| 0 <= i < g2.blocks@.len() ==> (*h).blocks@[i] == #[trigger] g2.blocks@[i]);
        };
        lemma_extended_by_trans(g0, g2, *h);
        assert(h.block_at(blk).words@ =~= seq![v1.word, v2.word]);
        a.encodes_mono(g2, *h, v1);
        b.encodes_mono(g2, *h, v2);
    }
    blk
}


/// Allocates a 3-field scanned block of tag `t` whose fields encode the
/// given components: the shared builder behind the composite conversions.
pub fn variant3<A: ToValue, B: ToValue, C: ToValue>(h: &mut Heap, t: u8, a: &A, b: &B, c: &C) -> (v: Value)
    requires
        old(h).wf(),
        tag_is_scanned(t),
        a.inv(*old(h)),
        b.inv(*old(h)),
        c.inv(*old(h)),
        old(h).blocks@.len() + 1 + a.blocks_needed() + b.blocks_needed() + c.blocks_needed() <= HEAP_LIMIT,
    ensures
        final(h).wf(),
        old(h).extended_by(*final(h)),
        final(h).blocks@.len() <= old(h).blocks@.len() + 1 + a.blocks_needed() + b.blocks_needed() + c.blocks_needed(),
        final(h).valid_block(v),
        final(h).valid_value(v),
        final(h).block_at(v).tag == t,
        final(h).block_at(v).words@.len() == 3,
        a.encodes(*final(h), (Value { word: final(h).block_at(v).words@[0] })),
        b.encodes(*final(h), (Value { word: final(h).block_at(v).words@[1] })),
        c.encodes(*final(h), (Value { word: final(h).block_at(v).words@[2] })),
{
    let ghost g0 = *h;
    let v1 = a.to_value(h);
    let ghost g1 = *h;
    proof {
        b.inv_mono(g0, g1);
    }
    let v2 = b.to_value(h);
    let ghost g2 = *h;
    proof {
        c.inv_mono(g0, g2);
    }
    let v3 = c.to_value(h);
    let ghost g3 = *h;
    proof {
        lemma_extended_by_trans(g0, g1, g2);
        lemma_extended_by_trans(g0, g2, g3);
        assert(g1.extended_by(g3)) by {
            assert(forall|i: int| 0 <= i < g1.blocks@.len() ==> g3.blocks@[i] == #[trigger] g1.blocks@[i]);
        };
        a.encodes_mono(g1, g3, v1);
        assert(g2.extended_by(g3)) by {
            assert(forall|i: int| 0 <= i < g2.blocks@.len() ==> g3.blocks@[i] == #[trigger] g2.blocks@[i]);
        };
        b.encodes_mono(g2, g3, v2);
    }
    let blk = h.alloc_block(3, t);
    proof {
        assert(g3.extended_by(*h)) by {
            assert(forall|i: int| 0 <= i < g3.blocks@.len() ==> (*h).blocks@[i] == #[trigger] g3.blocks@[i]);
        };
        lemma_valid_word_extended(g3, *h, v1.word);
    }
    h.store_field(blk, 0, v1);
    proof {
        assert(g3.extended_by(*h)) by {
            assert(forall|i: int| 0 <= i < g3.blocks@.len() ==> (*h).blocks@[i] == #[trigger] g3.blocks@[i]);
        };
        lemma_valid_word_extended(g3, *h, v2.word);
    }
    h.store_field(blk, 1, v2);
    proof {
        assert(g3.extended_by(*h)) by {
            assert(forall|i: int| 0 <= i < g3.blocks@.len() ==> (*h).blocks@[i] == #[trigger] g3.blocks@[i]);
        };
        lemma_valid_word_extended(g3, *h, v3.word);
    }
    h.store_field(blk, 2, v3);
    proof {
        assert(g3.extended_by(*h)) by {
            assert(forall|i: int| 0 <= i < g3.blocks@.len() ==> (*h).blocks@[i] == #[trigger] g3.blocks@[i]);
        };
        lemma_extended_by_trans(g0, g3, *h);
        assert(h.block_at(blk).words@ =~= seq![v1.word, v2.word, v3.word]);
        a.encodes_mono(g3, *h, v1);
        b.encodes_mono(g3, *h, v2);
        c.encodes_mono(g3, *h, v3);
    }
    blk
}


/// Allocates a 4-field scanned block of tag `t` whose fields encode the
/// given components: the shared builder behind the composite conversions.
pub fn variant4<A: ToValue, B: ToValue, C: ToValue, D: ToValue>(h: &mut Heap, t: u8, a: &A, b: &B, c: &C, d: &D) -> (v: Value)
    requires
        old(h).wf(),
        tag_is_scanned(t),
        a.inv(*old(h)),
        b.inv(*old(h)),
        c.inv(*old(h)),
        d.inv(*old(h)),
        old(h).blocks@.len() + 1 + a.blocks_needed() + b.blocks_needed() + c.blocks_needed() + d.blocks_needed() <= HEAP_LIMIT,
    ensures
        final(h).wf(),
        old(h).extended_by(*final(h)),
        final(h).blocks@.len() <= old(h).blocks@.len() + 1 + a.blocks_needed() + b.blocks_needed() + c.blocks_needed() + d.blocks_needed(),
        final(h).valid_block(v),
        final(h).valid_value(v),
        final(h).block_at(v).tag == t,
        final(h).block_at(v).words@.len() == 4,
        a.encodes(*final(h), (Value { word: final(h).block_at(v).words@[0] })),
        b.encodes(*final(h), (Value { word: final(h).block_at(v).words@[1] })),
        c.encodes(*final(h), (Value { word: final(h).block_at(v).words@[2] })),
        d.encodes(*final(h), (Value { word: final(h).block_at(v).words@[3] })),
{
    let ghost g0 = *h;
    let v1 = a.to_value(h);
    let ghost g1 = *h;
    proof {
        b.inv_mono(g0, g1);
    }
    let v2 = b.to_value(h);
    let ghost g2 = *h;
    proof {
        c.inv_mono(g0, g2);
    }
    let v3 = c.to_value(h);
    let ghost g3 = *h;
    proof {
        d.inv_mono(g0, g3);
    }
    let v4 = d.to_value(h);
    let ghost g4 = *h;
    proof {
        lemma_extended_by_trans(g0, g1, g2);
        lemma_extended_by_trans(g0, g2, g3);
        lemma_extended_by_trans(g0, g3, g4);
        assert(g1.extended_by(g4)) by {
            assert(forall|i: int| 0 <= i < g1.blocks@.len() ==> g4.blocks@[i] == #[trigger] g1.blocks@[i]);
        };
        a.encodes_mono(g1, g4, v1);
        assert(g2.extended_by(g4)) by {
            assert(forall|i: int| 0 <= i < g2.blocks@.len() ==> g4.blocks@[i] == #[trigger] g2.blocks@[i]);
        };
        b.encodes_mono(g2, g4, v2);
        assert(g3.extended_by(g4)) by {
            assert(forall|i: int| 0 <= i < g3.blocks@.len() ==> g4.blocks@[i] == #[trigger] g3.blocks@[i]);
        };
        c.encodes_mono(g3, g4, v3);
    }
    let blk = h.alloc_block(4, t);
    proof {
        assert(g4.extended_by(*h)) by {
            assert(forall|i: int| 0 <= i < g4.blocks@.len() ==> (*h).blocks@[i] == #[trigger] g4.blocks@[i]);
        };
        lemma_valid_word_extended(g4, *h, v1.word);
    }
    h.store_field(blk, 0, v1);
    proof {
        assert(g4.extended_by(*h)) by {
            assert(forall|i: int| 0 <= i < g4.blocks@.len() ==> (*h).blocks@[i] == #[trigger] g4.blocks@[i]);
        };
        lemma_valid_word_extended(g4, *h, v2.word);
    }
    h.store_field(blk, 1, v2);
    proof {
        assert(g4.extended_by(*h)) by {
            assert(forall|i: int| 0 <= i < g4.blocks@.len() ==> (*h).blocks@[i] == #[trigger] g4.blocks@[i]);
        };
        lemma_valid_word_extended(g4, *h, v3.word);
    }
    h.store_field(blk, 2, v3);
    proof {
        assert(g4.extended_by(*h)) by {
            assert(forall|i: int| 0 <= i < g4.blocks@.len() ==> (*h).blocks@[i] == #[trigger] g4.blocks@[i]);
        };
        lemma_valid_word_extended(g4, *h, v4.word);
    }
    h.store_field(blk, 3, v4);
    proof {
        assert(g4.extended_by(*h)) by {
            assert(forall|i: int| 0 <= i < g4.blocks@.len() ==> (*h).blocks@[i] == #[trigger] g4.blocks@[i]);
        };
        lemma_extended_by_trans(g0, g4, *h);
        assert(h.block_at(blk).words@ =~= seq![v1.word, v2.word, v3.word, v4.word]);
        a.encodes_mono(g4, *h, v1);
        b.encodes_mono(g4, *h, v2);
        c.encodes_mono(g4, *h, v3);
        d.encodes_mono(g4, *h, v4);
    }
    blk
}


/// Allocates a 5-field scanned block of tag `t` whose fields encode the
/// given components: the shared builder behind the composite conversions.
pub fn variant5<A: ToValue, B: ToValue, C: ToValue, D: ToValue, E: ToValue>(h: &mut Heap, t: u8, a: &A, b: &B, c: &C, d: &D, e: &E) -> (v: Value)
    requires
        old(h).wf(),
        tag_is_scanned(t),
        a.inv(*old(h)),
        b.inv(*old(h)),
        c.inv(*old(h)),
        d.inv(*old(h)),
        e.inv(*old(h)),
        old(h).blocks@.len() + 1 + a.blocks_needed() + b.blocks_needed() + c.blocks_needed() + d.blocks_needed() + e.blocks_needed() <= HEAP_LIMIT,
    ensures
        final(h).wf(),
        old(h).extended_by(*final(h)),
        final(h).blocks@.len() <= old(h).blocks@.len() + 1 + a.blocks_needed() + b.blocks_needed() + c.blocks_needed() + d.blocks_needed() + e.blocks_needed(),
        final(h).valid_block(v),
        final(h).valid_value(v),
        final(h).block_at(v).tag == t,
        final(h).block_at(v).words@.len() == 5,
        a.encodes(*final(h), (Value { word: final(h).block_at(v).words@[0] })),
        b.encodes(*final(h), (Value { word: final(h).block_at(v).words@[1] })),
        c.encodes(*final(h), (Value { word: final(h).block_at(v).words@[2] })),
        d.encodes(*final(h), (Value { word: final(h).block_at(v).words@[3] })),
        e.encodes(*final(h), (Value { word: final(h).block_at(v).words@[4] })),
{
    let ghost g0 = *h;
    let v1 = a.to_value(h);
    let ghost g1 = *h;
    proof {
        b.inv_mono(g0, g1);
    }
    let v2 = b.to_value(h);
    let ghost g2 = *h;
    proof {
        c.inv_mono(g0, g2);
    }
    let v3 = c.to_value(h);
    let ghost g3 = *h;
    proof {
        d.inv_mono(g0, g3);
    }
    let v4 = d.to_value(h);
    let ghost g4 = *h;
    proof {
        e.inv_mono(g0, g4);
    }
    let v5 = e.to_value(h);
    let ghost g5 = *h;
    proof {
        lemma_extended_by_trans(g0, g1, g2);
        lemma_extended_by_trans(g0, g2, g3);
        lemma_extended_by_trans(g0, g3, g4);
        lemma_extended_by_trans(g0, g4, g5);
        assert(g1.extended_by(g5)) by {
            assert(forall|i: int| 0 <= i < g1.blocks@.len() ==> g5.blocks@[i] == #[trigger] g1.blocks@[i]);
        };
        a.encodes_mono(g1, g5, v1);
        assert(g2.extended_by(g5)) by {
            assert(forall|i: int| 0 <= i < g2.blocks@.len() ==> g5.blocks@[i] == #[trigger] g2.blocks@[i]);
        };
        b.encodes_mono(g2, g5, v2);
        assert(g3.extended_by(g5)) by {
            assert(forall|i: int| 0 <= i < g3.blocks@.len() ==> g5.blocks@[i] == #[trigger] g3.blocks@[i]);
        };
        c.encodes_mono(g3, g5, v3);
        assert(g4.extended_by(g5)) by {
            assert(forall|i: int| 0 <= i < g4.blocks@.len() ==> g5.blocks@[i] == #[trigger] g4.blocks@[i]);
        };
        d.encodes_mono(g4, g5, v4);
    }
    let blk = h.alloc_block(5, t);
    proof {
        assert(g5.extended_by(*h)) by {
            assert(forall|i: int| 0 <= i < g5.blocks@.len() ==> (*h).blocks@[i] == #[trigger] g5.blocks@[i]);
        };
        lemma_valid_word_extended(g5, *h, v1.word);
    }
    h.store_field(blk, 0, v1);
    proof {
        assert(g5.extended_by(*h)) by {
            assert(forall|i: int| 0 <= i < g5.blocks@.len() ==> (*h).blocks@[i] == #[trigger] g5.blocks@[i]);
        };
        lemma_valid_word_extended(g5, *h, v2.word);
    }
    h.store_field(blk, 1, v2);
    proof {
        assert(g5.extended_by(*h)) by {
            assert(forall|i: int| 0 <= i < g5.blocks@.len() ==> (*h).blocks@[i] == #[trigger] g5.blocks@[i]);
        };
        lemma_valid_word_extended(g5, *h, v3.word);
    }
    h.store_field(blk, 2, v3);
    proof {
        assert(g5.extended_by(*h)) by {
            assert(forall|i: int| 0 <= i < g5.blocks@.len() ==> (*h).blocks@[i] == #[trigger] g5.blocks@[i]);
        };
        lemma_valid_word_extended(g5, *h, v4.word);
    }
    h.store_field(blk, 3, v4);
    proof {
        assert(g5.extended_by(*h)) by {
            assert(forall|i: int| 0 <= i < g5.blocks@.len() ==> (*h).blocks@[i] == #[trigger] g5.blocks@[i]);
        };
        lemma_valid_word_extended(g5, *h, v5.word);
    }
    h.store_field(blk, 4, v5);
    proof {
        assert(g5.extended_by(*h)) by {
            assert(forall|i: int| 0 <= i < g5.blocks@.len() ==> (*h).blocks@[i] == #[trigger] g5.blocks@[i]);
        };
        lemma_extended_by_trans(g0, g5, *h);
        assert(h.block_at(blk).words@ =~= seq![v1.word, v2.word, v3.word, v4.word, v5.word]);
        a.encodes_mono(g5, *h, v1);
        b.encodes_mono(g5, *h, v2);
        c.encodes_mono(g5, *h, v3);
        d.encodes_mono(g5, *h, v4);
        e.encodes_mono(g5, *h, v5);
    }
    blk
}


/// A size in physical pixels, carried as integers.
#[derive(Debug)]
pub struct PhysicalSize {
    pub width: i64,
    pub height: i64,
}

impl ToValue for PhysicalSize {
    open spec fn inv(&self, h: Heap) -> bool {
        self.width.inv(h) && self.height.inv(h)
    }

    open spec fn blocks_needed(&self) -> nat {
        1 + self.width.blocks_needed() + self.height.blocks_needed()
    }

    open spec fn encodes(&self, h: Heap, v: Value) -> bool {
        &&& h.valid_block(v)
        &&& h.block_at(v).tag == TAG_TUPLE
        &&& h.block_at(v).words@.len() == 2
        &&& self.width.encodes(h, (Value { word: h.block_at(v).words@[0] }))
        &&& self.height.encodes(h, (Value { word: h.block_at(v).words@[1] }))
    }

    proof fn inv_mono(&self, h1: Heap, h2: Heap) {
        self.width.inv_mono(h1, h2);
        self.height.inv_mono(h1, h2);
    }

    proof fn encodes_mono(&self, h1: Heap, h2: Heap, v: Value) {
        assert(h2.blocks@[v.spec_block_index()] == h1.blocks@[v.spec_block_index()]);
        self.width.encodes_mono(h1, h2, Value { word: h1.block_at(v).words@[0] });
        self.height.encodes_mono(h1, h2, Value { word: h1.block_at(v).words@[1] });
    }

    fn to_value(&self, h: &mut Heap) -> (v: Value) {
        variant2(h, TAG_TUPLE, &self.width, &self.height)
    }
}

/// A position in physical pixels, carried as integers.
#[derive(Debug)]
pub struct PhysicalPosition {
    pub x: i64,
    pub y: i64,
}

impl ToValue for PhysicalPosition {
    open spec fn inv(&self, h: Heap) -> bool {
        self.x.inv(h) && self.y.inv(h)
    }

    open spec fn blocks_needed(&self) -> nat {
        1 + self.x.blocks_needed() + self.y.blocks_needed()
    }

    open spec fn encodes(&self, h: Heap, v: Value) -> bool {
        &&& h.valid_block(v)
        &&& h.block_at(v).tag == TAG_TUPLE
        &&& h.block_at(v).words@.len() == 2
        &&& self.x.encodes(h, (Value { word: h.block_at(v).words@[0] }))
        &&& self.y.encodes(h, (Value { word: h.block_at(v).words@[1] }))
    }

    proof fn inv_mono(&self, h1: Heap, h2: Heap) {
        self.x.inv_mono(h1, h2);
        self.y.inv_mono(h1, h2);
    }

    proof fn encodes_mono(&self, h1: Heap, h2: Heap, v: Value) {
        assert(h2.blocks@[v.spec_block_index()] == h1.blocks@[v.spec_block_index()]);
        self.x.encodes_mono(h1, h2, Value { word: h1.block_at(v).words@[0] });
        self.y.encodes_mono(h1, h2, Value { word: h1.block_at(v).words@[1] });
    }

    fn to_value(&self, h: &mut Heap) -> (v: Value) {
        variant2(h, TAG_TUPLE, &self.x, &self.y)
    }
}

/// The system theme reported with a theme-change notification; one of
/// the few types a host callback also returns.
#[derive(Debug, Clone, Copy, PartialEq, Eq, Structural)]
pub enum Theme {
    Light,
    Dark,
}

impl ToValue for Theme {
    open spec fn inv(&self, h: Heap) -> bool {
        true
    }

    open spec fn blocks_needed(&self) -> nat {
        0
    }

    open spec fn encodes(&self, h: Heap, v: Value) -> bool {
        match self {
            Theme::Light => v.spec_is_long() && v.spec_int_val() == 0,
            Theme::Dark => v.spec_is_long() && v.spec_int_val() == 1,
        }
    }

    proof fn inv_mono(&self, h1: Heap, h2: Heap) {
    }

    proof fn encodes_mono(&self, h1: Heap, h2: Heap, v: Value) {
    }

    fn to_value(&self, h: &mut Heap) -> (v: Value) {
        match self {
            Theme::Light => Value::of_int(0),
            Theme::Dark => Value::of_int(1),
        }
    }
}

/// Whether a key or button went down or up.
#[derive(Debug, Clone, Copy, PartialEq, Eq, Structural)]
pub enum ElementState {
    Pressed,
    Released,
}

impl ToValue for ElementState {
    open spec fn inv(&self, h: Heap) -> bool {
        true
    }

    open spec fn blocks_needed(&self) -> nat {
        0
    }

    open spec fn encodes(&self, h: Heap, v: Value) -> bool {
        match self {
            ElementState::Pressed => v.spec_is_long() && v.spec_int_val() == 0,
            ElementState::Released => v.spec_is_long() && v.spec_int_val() == 1,
        }
    }

    proof fn inv_mono(&self, h1: Heap, h2: Heap) {
    }

    proof fn encodes_mono(&self, h1: Heap, h2: Heap, v: Value) {
    }

    fn to_value(&self, h: &mut Heap) -> (v: Value) {
        match self {
            ElementState::Pressed => Value::of_int(0),
            ElementState::Released => Value::of_int(1),
        }
    }
}

/// The phase of a touch gesture.
#[derive(Debug, Clone, Copy, PartialEq, Eq, Structural)]
pub enum TouchPhase {
    Started,
    Moved,
    Ended,
    Cancelled,
}

impl ToValue for TouchPhase {
    open spec fn inv(&self, h: Heap) -> bool {
        true
    }

    open spec fn blocks_needed(&self) -> nat {
        0
    }

    open spec fn encodes(&self, h: Heap, v: Value) -> bool {
        match self {
            TouchPhase::Started => v.spec_is_long() && v.spec_int_val() == 0,
            TouchPhase::Moved => v.spec_is_long() && v.spec_int_val() == 1,
            TouchPhase::Ended => v.spec_is_long() && v.spec_int_val() == 2,
            TouchPhase::Cancelled => v.spec_is_long() && v.spec_int_val() == 3,
        }
    }

    proof fn inv_mono(&self, h1: Heap, h2: Heap) {
    }

    proof fn encodes_mono(&self, h1: Heap, h2: Heap, v: Value) {
    }

    fn to_value(&self, h: &mut Heap) -> (v: Value) {
        match self {
            TouchPhase::Started => Value::of_int(0),
            TouchPhase::Moved => Value::of_int(1),
            TouchPhase::Ended => Value::of_int(2),
            TouchPhase::Cancelled => Value::of_int(3),
        }
    }
}

/// A mouse button; buttons beyond the three named ones carry their
/// native number.
#[derive(Debug, Clone, Copy, PartialEq, Eq, Structural)]
pub enum MouseButton {
    Left,
    Right,
    Middle,
    Other(u16),
}

impl ToValue for MouseButton {
    open spec fn inv(&self, h: Heap) -> bool {
        match self {
            MouseButton::Left => true,
            MouseButton::Right => true,
            MouseButton::Middle => true,
            MouseButton::Other(n) => n.inv(h),
        }
    }

    open spec fn blocks_needed(&self) -> nat {
        match self {
            MouseButton::Left => 0,
            MouseButton::Right => 0,
            MouseButton::Middle => 0,
            MouseButton::Other(n) => 1 + n.blocks_needed(),
        }
    }

    open spec fn encodes(&self, h: Heap, v: Value) -> bool {
        match self {
            MouseButton::Left => v.spec_is_long() && v.spec_int_val() == 0,
            MouseButton::Right => v.spec_is_long() && v.spec_int_val() == 1,
            MouseButton::Middle => v.spec_is_long() && v.spec_int_val() == 2,
            MouseButton::Other(n) => {
                &&& h.valid_block(v)
                &&& h.block_at(v).tag == 0
                &&& h.block_at(v).words@.len() == 1
                &&& n.encodes(h, (Value { word: h.block_at(v).words@[0] }))
            },
        }
    }

    proof fn inv_mono(&self, h1: Heap, h2: Heap) {
        match self {
            MouseButton::Left => {},
            MouseButton::Right => {},
            MouseButton::Middle => {},
            MouseButton::Other(n) => {
                n.inv_mono(h1, h2);
            },
        }
    }

    proof fn encodes_mono(&self, h1: Heap, h2: Heap, v: Value) {
        match self {
            MouseButton::Left => {},
            MouseButton::Right => {},
            MouseButton::Middle => {},
            MouseButton::Other(n) => {
                assert(h2.blocks@[v.spec_block_index()] == h1.blocks@[v.spec_block_index()]);
                n.encodes_mono(h1, h2, Value { word: h1.block_at(v).words@[0] });
            },
        }
    }

    fn to_value(&self, h: &mut Heap) -> (v: Value) {
        match self {
            MouseButton::Left => Value::of_int(0),
            MouseButton::Right => Value::of_int(1),
            MouseButton::Middle => Value::of_int(2),
            MouseButton::Other(n) => variant1(h, 0, n),
        }
    }
}

/// A scroll amount, in lines or in physical pixels (integral, the
/// embedder rounding).
#[derive(Debug)]
pub enum MouseScrollDelta {
    LineDelta(i64, i64),
    PixelDelta(PhysicalPosition),
}

impl ToValue for MouseScrollDelta {
    open spec fn inv(&self, h: Heap) -> bool {
        match self {
            MouseScrollDelta::LineDelta(x, y) => x.inv(h) && y.inv(h),
            MouseScrollDelta::PixelDelta(p) => p.inv(h),
        }
    }

    open spec fn blocks_needed(&self) -> nat {
        match self {
            MouseScrollDelta::LineDelta(x, y) => 1 + x.blocks_needed() + y.blocks_needed(),
            MouseScrollDelta::PixelDelta(p) => 1 + p.blocks_needed(),
        }
    }

    open spec fn encodes(&self, h: Heap, v: Value) -> bool {
        match self {
            MouseScrollDelta::LineDelta(x, y) => {
                &&& h.valid_block(v)
                &&& h.block_at(v).tag == 0
                &&& h.block_at(v).words@.len() == 2
                &&& x.encodes(h, (Value { word: h.block_at(v).words@[0] }))
                &&& y.encodes(h, (Value { word: h.block_at(v).words@[1] }))
            },
            MouseScrollDelta::PixelDelta(p) => {
                &&& h.valid_block(v)
                &&& h.block_at(v).tag == 1
                &&& h.block_at(v).words@.len() == 1
                &&& p.encodes(h, (Value { word: h.block_at(v).words@[0] }))
            },
        }
    }

    proof fn inv_mono(&self, h1: Heap, h2: Heap) {
        match self {
            MouseScrollDelta::LineDelta(x, y) => {
                x.inv_mono(h1, h2);
                y.inv_mono(h1, h2);
            },
            MouseScrollDelta::PixelDelta(p) => {
                p.inv_mono(h1, h2);
            },
        }
    }

    proof fn encodes_mono(&self, h1: Heap, h2: Heap, v: Value) {
        match self {
            MouseScrollDelta::LineDelta(x, y) => {
                assert(h2.blocks@[v.spec_block_index()] == h1.blocks@[v.spec_block_index()]);
                x.encodes_mono(h1, h2, Value { word: h1.block_at(v).words@[0] });
                y.encodes_mono(h1, h2, Value { word: h1.block_at(v).words@[1] });
            },
            MouseScrollDelta::PixelDelta(p) => {
                assert(h2.blocks@[v.spec_block_index()] == h1.blocks@[v.spec_block_index()]);
                p.encodes_mono(h1, h2, Value { word: h1.block_at(v).words@[0] });
            },
        }
    }

    fn to_value(&self, h: &mut Heap) -> (v: Value) {
        match self {
            MouseScrollDelta::LineDelta(x, y) => variant2(h, 0, x, y),
            MouseScrollDelta::PixelDelta(p) => variant1(h, 1, p),
        }
    }
}

/// Touch force, calibrated or normalized; magnitudes carried as
/// integers of the embedder's chosen scale.
#[derive(Debug)]
pub enum Force {
    Calibrated { force: i64, max_possible_force: i64, altitude_angle: Option<i64> },
    Normalized(i64),
}

impl ToValue for Force {
    open spec fn inv(&self, h: Heap) -> bool {
        match self {
            Force::Calibrated { force, max_possible_force, altitude_angle } => force.inv(h) && max_possible_force.inv(h) && altitude_angle.inv(h),
            Force::Normalized(amount) => amount.inv(h),
        }
    }

    open spec fn blocks_needed(&self) -> nat {
        match self {
            Force::Calibrated { force, max_possible_force, altitude_angle } => 1 + force.blocks_needed() + max_possible_force.blocks_needed() + altitude_angle.blocks_needed(),
            Force::Normalized(amount) => 1 + amount.blocks_needed(),
        }
    }

    open spec fn encodes(&self, h: Heap, v: Value) -> bool {
        match self {
            Force::Calibrated { force, max_possible_force, altitude_angle } => {
                &&& h.valid_block(v)
                &&& h.block_at(v).tag == 0
                &&& h.block_at(v).words@.len() == 3
                &&& force.encodes(h, (Value { word: h.block_at(v).words@[0] }))
                &&& max_possible_force.encodes(h, (Value { word: h.block_at(v).words@[1] }))
                &&& altitude_angle.encodes(h, (Value { word: h.block_at(v).words@[2] }))
            },
            Force::Normalized(amount) => {
                &&& h.valid_block(v)
                &&& h.block_at(v).tag == 1
                &&& h.block_at(v).words@.len() == 1
                &&& amount.encodes(h, (Value { word: h.block_at(v).words@[0] }))
            },
        }
    }

    proof fn inv_mono(&self, h1: Heap, h2: Heap) {
        match self {
            Force::Calibrated { force, max_possible_force, altitude_angle } => {
                force.inv_mono(h1, h2);
                max_possible_force.inv_mono(h1, h2);
                altitude_angle.inv_mono(h1, h2);
            },
            Force::Normalized(amount) => {
                amount.inv_mono(h1, h2);
            },
        }
    }

    proof fn encodes_mono(&self, h1: Heap, h2: Heap, v: Value) {
        match self {
            Force::Calibrated { force, max_possible_force, altitude_angle } => {
                assert(h2.blocks@[v.spec_block_index()] == h1.blocks@[v.spec_block_index()]);
                force.encodes_mono(h1, h2, Value { word: h1.block_at(v).words@[0] });
                max_possible_force.encodes_mono(h1, h2, Value { word: h1.block_at(v).words@[1] });
                altitude_angle.encodes_mono(h1, h2, Value { word: h1.block_at(v).words@[2] });
            },
            Force::Normalized(amount) => {
                assert(h2.blocks@[v.spec_block_index()] == h1.blocks@[v.spec_block_index()]);
                amount.encodes_mono(h1, h2, Value { word: h1.block_at(v).words@[0] });
            },
        }
    }

    fn to_value(&self, h: &mut Heap) -> (v: Value) {
        match self {
            Force::Calibrated { force, max_possible_force, altitude_angle } => variant3(h, 0, force, max_possible_force, altitude_angle),
            Force::Normalized(amount) => variant1(h, 1, amount),
        }
    }
}

/// One touch notification; the device identifier travels as an
/// already-allocated opaque bridge value.
#[derive(Debug)]
pub struct Touch {
    pub device_id: Value,
    pub phase: TouchPhase,
    pub location: PhysicalPosition,
    pub force: Option<Force>,
    pub id: i64,
}

impl ToValue for Touch {
    open spec fn inv(&self, h: Heap) -> bool {
        self.device_id.inv(h) && self.phase.inv(h) && self.location.inv(h) && self.force.inv(h) && self.id.inv(h)
    }

    open spec fn blocks_needed(&self) -> nat {
        1 + self.device_id.blocks_needed() + self.phase.blocks_needed() + self.location.blocks_needed() + self.force.blocks_needed() + self.id.blocks_needed()
    }

    open spec fn encodes(&self, h: Heap, v: Value) -> bool {
        &&& h.valid_block(v)
        &&& h.block_at(v).tag == TAG_TUPLE
        &&& h.block_at(v).words@.len() == 5
        &&& self.device_id.encodes(h, (Value { word: h.block_at(v).words@[0] }))
        &&& self.phase.encodes(h, (Value { word: h.block_at(v).words@[1] }))
        &&& self.location.encodes(h, (Value { word: h.block_at(v).words@[2] }))
        &&& self.force.encodes(h, (Value { word: h.block_at(v).words@[3] }))
        &&& self.id.encodes(h, (Value { word: h.block_at(v).words@[4] }))
    }

    proof fn inv_mono(&self, h1: Heap, h2: Heap) {
        self.device_id.inv_mono(h1, h2);
        self.phase.inv_mono(h1, h2);
        self.location.inv_mono(h1, h2);
        self.force.inv_mono(h1, h2);
        self.id.inv_mono(h1, h2);
    }

    proof fn encodes_mono(&self, h1: Heap, h2: Heap, v: Value) {
        assert(h2.blocks@[v.spec_block_index()] == h1.blocks@[v.spec_block_index()]);
        self.device_id.encodes_mono(h1, h2, Value { word: h1.block_at(v).words@[0] });
        self.phase.encodes_mono(h1, h2, Value { word: h1.block_at(v).words@[1] });
        self.location.encodes_mono(h1, h2, Value { word: h1.block_at(v).words@[2] });
        self.force.encodes_mono(h1, h2, Value { word: h1.block_at(v).words@[3] });
        self.id.encodes_mono(h1, h2, Value { word: h1.block_at(v).words@[4] });
    }

    fn to_value(&self, h: &mut Heap) -> (v: Value) {
        variant5(h, TAG_TUPLE, &self.device_id, &self.phase, &self.location, &self.force, &self.id)
    }
}

/// The keyboard modifier state.
#[derive(Debug)]
pub struct ModifiersState {
    pub shift: bool,
    pub ctrl: bool,
    pub alt: bool,
    pub logo: bool,
}

impl ToValue for ModifiersState {
    open spec fn inv(&self, h: Heap) -> bool {
        self.shift.inv(h) && self.ctrl.inv(h) && self.alt.inv(h) && self.logo.inv(h)
    }

    open spec fn blocks_needed(&self) -> nat {
        1 + self.shift.blocks_needed() + self.ctrl.blocks_needed() + self.alt.blocks_needed() + self.logo.blocks_needed()
    }

    open spec fn encodes(&self, h: Heap, v: Value) -> bool {
        &&& h.valid_block(v)
        &&& h.block_at(v).tag == TAG_TUPLE
        &&& h.block_at(v).words@.len() == 4
        &&& self.shift.encodes(h, (Value { word: h.block_at(v).words@[0] }))
        &&& self.ctrl.encodes(h, (Value { word: h.block_at(v).words@[1] }))
        &&& self.alt.encodes(h, (Value { word: h.block_at(v).words@[2] }))
        &&& self.logo.encodes(h, (Value { word: h.block_at(v).words@[3] }))
    }

    proof fn inv_mono(&self, h1: Heap, h2: Heap) {
        self.shift.inv_mono(h1, h2);
        self.ctrl.inv_mono(h1, h2);
        self.alt.inv_mono(h1, h2);
        self.logo.inv_mono(h1, h2);
    }

    proof fn encodes_mono(&self, h1: Heap, h2: Heap, v: Value) {
        assert(h2.blocks@[v.spec_block_index()] == h1.blocks@[v.spec_block_index()]);
        self.shift.encodes_mono(h1, h2, Value { word: h1.block_at(v).words@[0] });
        self.ctrl.encodes_mono(h1, h2, Value { word: h1.block_at(v).words@[1] });
        self.alt.encodes_mono(h1, h2, Value { word: h1.block_at(v).words@[2] });
        self.logo.encodes_mono(h1, h2, Value { word: h1.block_at(v).words@[3] });
    }

    fn to_value(&self, h: &mut Heap) -> (v: Value) {
        variant4(h, TAG_TUPLE, &self.shift, &self.ctrl, &self.alt, &self.logo)
    }
}

/// One keyboard notification.
#[derive(Debug)]
pub struct KeyboardInput {
    pub scancode: i64,
    pub state: ElementState,
    pub virtual_keycode: Option<VirtualKeyCode>,
}

impl ToValue for KeyboardInput {
    open spec fn inv(&self, h: Heap) -> bool {
        self.scancode.inv(h) && self.state.inv(h) && self.virtual_keycode.inv(h)
    }

    open spec fn blocks_needed(&self) -> nat {
        1 + self.scancode.blocks_needed() + self.state.blocks_needed() + self.virtual_keycode.blocks_needed()
    }

    open spec fn encodes(&self, h: Heap, v: Value) -> bool {
        &&& h.valid_block(v)
        &&& h.block_at(v).tag == TAG_TUPLE
        &&& h.block_at(v).words@.len() == 3
        &&& self.scancode.encodes(h, (Value { word: h.block_at(v).words@[0] }))
        &&& self.state.encodes(h, (Value { word: h.block_at(v).words@[1] }))
        &&& self.virtual_keycode.encodes(h, (Value { word: h.block_at(v).words@[2] }))
    }

    proof fn inv_mono(&self, h1: Heap, h2: Heap) {
        self.scancode.inv_mono(h1, h2);
        self.state.inv_mono(h1, h2);
        self.virtual_keycode.inv_mono(h1, h2);
    }

    proof fn encodes_mono(&self, h1: Heap, h2: Heap, v: Value) {
        assert(h2.blocks@[v.spec_block_index()] == h1.blocks@[v.spec_block_index()]);
        self.scancode.encodes_mono(h1, h2, Value { word: h1.block_at(v).words@[0] });
        self.state.encodes_mono(h1, h2, Value { word: h1.block_at(v).words@[1] });
        self.virtual_keycode.encodes_mono(h1, h2, Value { word: h1.block_at(v).words@[2] });
    }

    fn to_value(&self, h: &mut Heap) -> (v: Value) {
        variant3(h, TAG_TUPLE, &self.scancode, &self.state, &self.virtual_keycode)
    }
}

/// Why an event-batch iteration started; times are millisecond points
/// on the bridge's monotonic clock, already converted to deltas by the
/// embedder where they cross the boundary.
#[derive(Debug)]
pub enum StartCause {
    ResumeTimeReached { start: i64, requested_resume: i64 },
    WaitCancelled { start: i64, requested_resume: Option<i64> },
    Poll,
    Init,
}

impl ToValue for StartCause {
    open spec fn inv(&self, h: Heap) -> bool {
        match self {
            StartCause::ResumeTimeReached { start, requested_resume } => start.inv(h) && requested_resume.inv(h),
            StartCause::WaitCancelled { start, requested_resume } => start.inv(h) && requested_resume.inv(h),
            StartCause::Poll => true,
            StartCause::Init => true,
        }
    }

    open spec fn blocks_needed(&self) -> nat {
        match self {
            StartCause::ResumeTimeReached { start, requested_resume } => 1 + start.blocks_needed() + requested_resume.blocks_needed(),
            StartCause::WaitCancelled { start, requested_resume } => 1 + start.blocks_needed() + requested_resume.blocks_needed(),
            StartCause::Poll => 0,
            StartCause::Init => 0,
        }
    }

    open spec fn encodes(&self, h: Heap, v: Value) -> bool {
        match self {
            StartCause::ResumeTimeReached { start, requested_resume } => {
                &&& h.valid_block(v)
                &&& h.block_at(v).tag == 0
                &&& h.block_at(v).words@.len() == 2
                &&& start.encodes(h, (Value { word: h.block_at(v).words@[0] }))
                &&& requested_resume.encodes(h, (Value { word: h.block_at(v).words@[1] }))
            },
            StartCause::WaitCancelled { start, requested_resume } => {
                &&& h.valid_block(v)
                &&& h.block_at(v).tag == 1
                &&& h.block_at(v).words@.len() == 2
                &&& start.encodes(h, (Value { word: h.block_at(v).words@[0] }))
                &&& requested_resume.encodes(h, (Value { word: h.block_at(v).words@[1] }))
            },
            StartCause::Poll => v.spec_is_long() && v.spec_int_val() == 0,
            StartCause::Init => v.spec_is_long() && v.spec_int_val() == 1,
        }
    }

    proof fn inv_mono(&self, h1: Heap, h2: Heap) {
        match self {
            StartCause::ResumeTimeReached { start, requested_resume } => {
                start.inv_mono(h1, h2);
                requested_resume.inv_mono(h1, h2);
            },
            StartCause::WaitCancelled { start, requested_resume } => {
                start.inv_mono(h1, h2);
                requested_resume.inv_mono(h1, h2);
            },
            StartCause::Poll => {},
            StartCause::Init => {},
        }
    }

    proof fn encodes_mono(&self, h1: Heap, h2: Heap, v: Value) {
        match self {
            StartCause::ResumeTimeReached { start, requested_resume } => {
                assert(h2.blocks@[v.spec_block_index()] == h1.blocks@[v.spec_block_index()]);
                start.encodes_mono(h1, h2, Value { word: h1.block_at(v).words@[0] });
                requested_resume.encodes_mono(h1, h2, Value { word: h1.block_at(v).words@[1] });
            },
            StartCause::WaitCancelled { start, requested_resume } => {
                assert(h2.blocks@[v.spec_block_index()] == h1.blocks@[v.spec_block_index()]);
                start.encodes_mono(h1, h2, Value { word: h1.block_at(v).words@[0] });
                requested_resume.encodes_mono(h1, h2, Value { word: h1.block_at(v).words@[1] });
            },
            StartCause::Poll => {},
            StartCause::Init => {},
        }
    }

    fn to_value(&self, h: &mut Heap) -> (v: Value) {
        match self {
            StartCause::ResumeTimeReached { start, requested_resume } => variant2(h, 0, start, requested_resume),
            StartCause::WaitCancelled { start, requested_resume } => variant2(h, 1, start, requested_resume),
            StartCause::Poll => Value::of_int(0),
            StartCause::Init => Value::of_int(1),
        }
    }
}

/// A window notification: the closed set marshalled each iteration.
/// Paths and text travel as byte strings; opaque identifiers as bridge
/// values.
#[derive(Debug)]
pub enum WindowEvent {
    Resized(PhysicalSize),
    Moved(PhysicalPosition),
    CloseRequested,
    Destroyed,
    DroppedFile(Vec<u8>),
    HoveredFile(Vec<u8>),
    HoveredFileCancelled,
    ReceivedCharacter(Vec<u8>),
    Focused(bool),
    KeyboardInput { device_id: Value, input: KeyboardInput, is_synthetic: bool },
    ModifiersChanged(ModifiersState),
    CursorMoved { device_id: Value, position: PhysicalPosition },
    CursorEntered { device_id: Value },
    CursorLeft { device_id: Value },
    MouseWheel { device_id: Value, delta: MouseScrollDelta, phase: TouchPhase },
    MouseInput { device_id: Value, state: ElementState, button: MouseButton },
    TouchpadPressure { device_id: Value, pressure: i64, stage: i64 },
    AxisMotion { device_id: Value, axis: Value, value: i64 },
    Touch(Touch),
    ScaleFactorChanged { scale_factor: i64, new_inner_size: PhysicalSize },
    ThemeChanged(Theme),
}

impl ToValue for WindowEvent {
    open spec fn inv(&self, h: Heap) -> bool {
        match self {
            WindowEvent::Resized(size) => size.inv(h),
            WindowEvent::Moved(position) => position.inv(h),
            WindowEvent::CloseRequested => true,
            WindowEvent::Destroyed => true,
            WindowEvent::DroppedFile(path) => path.inv(h),
            WindowEvent::HoveredFile(path) => path.inv(h),
            WindowEvent::HoveredFileCancelled => true,
            WindowEvent::ReceivedCharacter(text) => text.inv(h),
            WindowEvent::Focused(focused) => focused.inv(h),
            WindowEvent::KeyboardInput { device_id, input, is_synthetic } => device_id.inv(h) && input.inv(h) && is_synthetic.inv(h),
            WindowEvent::ModifiersChanged(state) => state.inv(h),
            WindowEvent::CursorMoved { device_id, position } => device_id.inv(h) && position.inv(h),
            WindowEvent::CursorEntered { device_id } => device_id.inv(h),
            WindowEvent::CursorLeft { device_id } => device_id.inv(h),
            WindowEvent::MouseWheel { device_id, delta, phase } => device_id.inv(h) && delta.inv(h) && phase.inv(h),
            WindowEvent::MouseInput { device_id, state, button } => device_id.inv(h) && state.inv(h) && button.inv(h),
            WindowEvent::TouchpadPressure { device_id, pressure, stage } => device_id.inv(h) && pressure.inv(h) && stage.inv(h),
            WindowEvent::AxisMotion { device_id, axis, value } => device_id.inv(h) && axis.inv(h) && value.inv(h),
            WindowEvent::Touch(touch) => touch.inv(h),
            WindowEvent::ScaleFactorChanged { scale_factor, new_inner_size } => scale_factor.inv(h) && new_inner_size.inv(h),
            WindowEvent::ThemeChanged(theme) => theme.inv(h),
        }
    }

    open spec fn blocks_needed(&self) -> nat {
        match self {
            WindowEvent::Resized(size) => 1 + size.blocks_needed(),
            WindowEvent::Moved(position) => 1 + position.blocks_needed(),
            WindowEvent::CloseRequested => 0,
            WindowEvent::Destroyed => 0,
            WindowEvent::DroppedFile(path) => 1 + path.blocks_needed(),
            WindowEvent::HoveredFile(path) => 1 + path.blocks_needed(),
            WindowEvent::HoveredFileCancelled => 0,
            WindowEvent::ReceivedCharacter(text) => 1 + text.blocks_needed(),
            WindowEvent::Focused(focused) => 1 + focused.blocks_needed(),
            WindowEvent::KeyboardInput { device_id, input, is_synthetic } => 1 + device_id.blocks_needed() + input.blocks_needed() + is_synthetic.blocks_needed(),
            WindowEvent::ModifiersChanged(state) => 1 + state.blocks_needed(),
            WindowEvent::CursorMoved { device_id, position } => 1 + device_id.blocks_needed() + position.blocks_needed(),
            WindowEvent::CursorEntered { device_id } => 1 + device_id.blocks_needed(),
            WindowEvent::CursorLeft { device_id } => 1 + device_id.blocks_needed(),
            WindowEvent::MouseWheel { device_id, delta, phase } => 1 + device_id.blocks_needed() + delta.blocks_needed() + phase.blocks_needed(),
            WindowEvent::MouseInput { device_id, state, button } => 1 + device_id.blocks_needed() + state.blocks_needed() + button.blocks_needed(),
            WindowEvent::TouchpadPressure { device_id, pressure, stage } => 1 + device_id.blocks_needed() + pressure.blocks_needed() + stage.blocks_needed(),
            WindowEvent::AxisMotion { device_id, axis, value } => 1 + device_id.blocks_needed() + axis.blocks_needed() + value.blocks_needed(),
            WindowEvent::Touch(touch) => 1 + touch.blocks_needed(),
            WindowEvent::ScaleFactorChanged { scale_factor, new_inner_size } => 1 + scale_factor.blocks_needed() + new_inner_size.blocks_needed(),
            WindowEvent::ThemeChanged(theme) => 1 + theme.blocks_needed(),
        }
    }

    open spec fn encodes(&self, h: Heap, v: Value) -> bool {
        match self {
            WindowEvent::Resized(size) => {
                &&& h.valid_block(v)
                &&& h.block_at(v).tag == 0
                &&& h.block_at(v).words@.len() == 1
                &&& size.encodes(h, (Value { word: h.block_at(v).words@[0] }))
            },
            WindowEvent::Moved(position) => {
                &&& h.valid_block(v)
                &&& h.block_at(v).tag == 1
                &&& h.block_at(v).words@.len() == 1
                &&& position.encodes(h, (Value { word: h.block_at(v).words@[0] }))
            },
            WindowEvent::CloseRequested => v.spec_is_long() && v.spec_int_val() == 0,
            WindowEvent::Destroyed => v.spec_is_long() && v.spec_int_val() == 1,
            WindowEvent::DroppedFile(path) => {
                &&& h.valid_block(v)
                &&& h.block_at(v).tag == 2
                &&& h.block_at(v).words@.len() == 1
                &&& path.encodes(h, (Value { word: h.block_at(v).words@[0] }))
            },
            WindowEvent::HoveredFile(path) => {
                &&& h.valid_block(v)
                &&& h.block_at(v).tag == 3
                &&& h.block_at(v).words@.len() == 1
                &&& path.encodes(h, (Value { word: h.block_at(v).words@[0] }))
            },
            WindowEvent::HoveredFileCancelled => v.spec_is_long() && v.spec_int_val() == 2,
            WindowEvent::ReceivedCharacter(text) => {
                &&& h.valid_block(v)
                &&& h.block_at(v).tag == 4
                &&& h.block_at(v).words@.len() == 1
                &&& text.encodes(h, (Value { word: h.block_at(v).words@[0] }))
            },
            WindowEvent::Focused(focused) => {
                &&& h.valid_block(v)
                &&& h.block_at(v).tag == 5
                &&& h.block_at(v).words@.len() == 1
                &&& focused.encodes(h, (Value { word: h.block_at(v).words@[0] }))
            },
            WindowEvent::KeyboardInput { device_id, input, is_synthetic } => {
                &&& h.valid_block(v)
                &&& h.block_at(v).tag == 6
                &&& h.block_at(v).words@.len() == 3
                &&& device_id.encodes(h, (Value { word: h.block_at(v).words@[0] }))
                &&& input.encodes(h, (Value { word: h.block_at(v).words@[1] }))
                &&& is_synthetic.encodes(h, (Value { word: h.block_at(v).words@[2] }))
            },
            WindowEvent::ModifiersChanged(state) => {
                &&& h.valid_block(v)
                &&& h.block_at(v).tag == 7
                &&& h.block_at(v).words@.len() == 1
                &&& state.encodes(h, (Value { word: h.block_at(v).words@[0] }))
            },
            WindowEvent::CursorMoved { device_id, position } => {
                &&& h.valid_block(v)
                &&& h.block_at(v).tag == 8
                &&& h.block_at(v).words@.len() == 2
                &&& device_id.encodes(h, (Value { word: h.block_at(v).words@[0] }))
                &&& position.encodes(h, (Value { word: h.block_at(v).words@[1] }))
            },
            WindowEvent::CursorEntered { device_id } => {
                &&& h.valid_block(v)
                &&& h.block_at(v).tag == 9
                &&& h.block_at(v).words@.len() == 1
                &&& device_id.encodes(h, (Value { word: h.block_at(v).words@[0] }))
            },
            WindowEvent::CursorLeft { device_id } => {
                &&& h.valid_block(v)
                &&& h.block_at(v).tag == 10
                &&& h.block_at(v).words@.len() == 1
                &&& device_id.encodes(h, (Value { word: h.block_at(v).words@[0] }))
            },
            WindowEvent::MouseWheel { device_id, delta, phase } => {
                &&& h.valid_block(v)
                &&& h.block_at(v).tag == 11
                &&& h.block_at(v).words@.len() == 3
                &&& device_id.encodes(h, (Value { word: h.block_at(v).words@[0] }))
                &&& delta.encodes(h, (Value { word: h.block_at(v).words@[1] }))
                &&& phase.encodes(h, (Value { word: h.block_at(v).words@[2] }))
            },
            WindowEvent::MouseInput { device_id, state, button } => {
                &&& h.valid_block(v)
                &&& h.block_at(v).tag == 12
                &&& h.block_at(v).words@.len() == 3
                &&& device_id.encodes(h, (Value { word: h.block_at(v).words@[0] }))
                &&& state.encodes(h, (Value { word: h.block_at(v).words@[1] }))
                &&& button.encodes(h, (Value { word: h.block_at(v).words@[2] }))
            },
            WindowEvent::TouchpadPressure { device_id, pressure, stage } => {
                &&& h.valid_block(v)
                &&& h.block_at(v).tag == 13
                &&& h.block_at(v).words@.len() == 3
                &&& device_id.encodes(h, (Value { word: h.block_at(v).words@[0] }))
                &&& pressure.encodes(h, (Value { word: h.block_at(v).words@[1] }))
                &&& stage.encodes(h, (Value { word: h.block_at(v).words@[2] }))
            },
            WindowEvent::AxisMotion { device_id, axis, value } => {
                &&& h.valid_block(v)
                &&& h.block_at(v).tag == 14
                &&& h.block_at(v).words@.len() == 3
                &&& device_id.encodes(h, (Value { word: h.block_at(v).words@[0] }))
                &&& axis.encodes(h, (Value { word: h.block_at(v).words@[1] }))
                &&& value.encodes(h, (Value { word: h.block_at(v).words@[2] }))
            },
            WindowEvent::Touch(touch) => {
                &&& h.valid_block(v)
                &&& h.block_at(v).tag == 15
                &&& h.block_at(v).words@.len() == 1
                &&& touch.encodes(h, (Value { word: h.block_at(v).words@[0] }))
            },
            WindowEvent::ScaleFactorChanged { scale_factor, new_inner_size } => {
                &&& h.valid_block(v)
                &&& h.block_at(v).tag == 16
                &&& h.block_at(v).words@.len() == 2
                &&& scale_factor.encodes(h, (Value { word: h.block_at(v).words@[0] }))
                &&& new_inner_size.encodes(h, (Value { word: h.block_at(v).words@[1] }))
            },
            WindowEvent::ThemeChanged(theme) => {
                &&& h.valid_block(v)
                &&& h.block_at(v).tag == 17
                &&& h.block_at(v).words@.len() == 1
                &&& theme.encodes(h, (Value { word: h.block_at(v).words@[0] }))
            },
        }
    }

    proof fn inv_mono(&self, h1: Heap, h2: Heap) {
        match self {
            WindowEvent::Resized(size) => {
                size.inv_mono(h1, h2);
            },
            WindowEvent::Moved(position) => {
                position.inv_mono(h1, h2);
            },
            WindowEvent::CloseRequested => {},
            WindowEvent::Destroyed => {},
            WindowEvent::DroppedFile(path) => {
                path.inv_mono(h1, h2);
            },
            WindowEvent::HoveredFile(path) => {
                path.inv_mono(h1, h2);
            },
            WindowEvent::HoveredFileCancelled => {},
            WindowEvent::ReceivedCharacter(text) => {
                text.inv_mono(h1, h2);
            },
            WindowEvent::Focused(focused) => {
                focused.inv_mono(h1, h2);
            },
            WindowEvent::KeyboardInput { device_id, input, is_synthetic } => {
                device_id.inv_mono(h1, h2);
                input.inv_mono(h1, h2);
                is_synthetic.inv_mono(h1, h2);
            },
            WindowEvent::ModifiersChanged(state) => {
                state.inv_mono(h1, h2);
            },
            WindowEvent::CursorMoved { device_id, position } => {
                device_id.inv_mono(h1, h2);
                position.inv_mono(h1, h2);
            },
            WindowEvent::CursorEntered { device_id } => {
                device_id.inv_mono(h1, h2);
            },
            WindowEvent::CursorLeft { device_id } => {
                device_id.inv_mono(h1, h2);
            },
            WindowEvent::MouseWheel { device_id, delta, phase } => {
                device_id.inv_mono(h1, h2);
                delta.inv_mono(h1, h2);
                phase.inv_mono(h1, h2);
            },
            WindowEvent::MouseInput { device_id, state, button } => {
                device_id.inv_mono(h1, h2);
                state.inv_mono(h1, h2);
                button.inv_mono(h1, h2);
            },
            WindowEvent::TouchpadPressure { device_id, pressure, stage } => {
                device_id.inv_mono(h1, h2);
                pressure.inv_mono(h1, h2);
                stage.inv_mono(h1, h2);
            },
            WindowEvent::AxisMotion { device_id, axis, value } => {
                device_id.inv_mono(h1, h2);
                axis.inv_mono(h1, h2);
                value.inv_mono(h1, h2);
            },
            WindowEvent::Touch(touch) => {
                touch.inv_mono(h1, h2);
            },
            WindowEvent::ScaleFactorChanged { scale_factor, new_inner_size } => {
                scale_factor.inv_mono(h1, h2);
                new_inner_size.inv_mono(h1, h2);
            },
            WindowEvent::ThemeChanged(theme) => {
                theme.inv_mono(h1, h2);
            },
        }
    }

    proof fn encodes_mono(&self, h1: Heap, h2: Heap, v: Value) {
        match self {
            WindowEvent::Resized(size) => {
                assert(h2.blocks@[v.spec_block_index()] == h1.blocks@[v.spec_block_index()]);
                size.encodes_mono(h1, h2, Value { word: h1.block_at(v).words@[0] });
            },
            WindowEvent::Moved(position) => {
                assert(h2.blocks@[v.spec_block_index()] == h1.blocks@[v.spec_block_index()]);
                position.encodes_mono(h1, h2, Value { word: h1.block_at(v).words@[0] });
            },
            WindowEvent::CloseRequested => {},
            WindowEvent::Destroyed => {},
            WindowEvent::DroppedFile(path) => {
                assert(h2.blocks@[v.spec_block_index()] == h1.blocks@[v.spec_block_index()]);
                path.encodes_mono(h1, h2, Value { word: h1.block_at(v).words@[0] });
            },
            WindowEvent::HoveredFile(path) => {
                assert(h2.blocks@[v.spec_block_index()] == h1.blocks@[v.spec_block_index()]);
                path.encodes_mono(h1, h2, Value { word: h1.block_at(v).words@[0] });
            },
            WindowEvent::HoveredFileCancelled => {},
            WindowEvent::ReceivedCharacter(text) => {
                assert(h2.blocks@[v.spec_block_index()] == h1.blocks@[v.spec_block_index()]);
                text.encodes_mono(h1, h2, Value { word: h1.block_at(v).words@[0] });
            },
            WindowEvent::Focused(focused) => {
                assert(h2.blocks@[v.spec_block_index()] == h1.blocks@[v.spec_block_index()]);
                focused.encodes_mono(h1, h2, Value { word: h1.block_at(v).words@[0] });
            },
            WindowEvent::KeyboardInput { device_id, input, is_synthetic } => {
                assert(h2.blocks@[v.spec_block_index()] == h1.blocks@[v.spec_block_index()]);
                device_id.encodes_mono(h1, h2, Value { word: h1.block_at(v).words@[0] });
                input.encodes_mono(h1, h2, Value { word: h1.block_at(v).words@[1] });
                is_synthetic.encodes_mono(h1, h2, Value { word: h1.block_at(v).words@[2] });
            },
            WindowEvent::ModifiersChanged(state) => {
                assert(h2.blocks@[v.spec_block_index()] == h1.blocks@[v.spec_block_index()]);
                state.encodes_mono(h1, h2, Value { word: h1.block_at(v).words@[0] });
            },
            WindowEvent::CursorMoved { device_id, position } => {
                assert(h2.blocks@[v.spec_block_index()] == h1.blocks@[v.spec_block_index()]);
                device_id.encodes_mono(h1, h2, Value { word: h1.block_at(v).words@[0] });
                position.encodes_mono(h1, h2, Value { word: h1.block_at(v).words@[1] });
            },
            WindowEvent::CursorEntered { device_id } => {
                assert(h2.blocks@[v.spec_block_index()] == h1.blocks@[v.spec_block_index()]);
                device_id.encodes_mono(h1, h2, Value { word: h1.block_at(v).words@[0] });
            },
            WindowEvent::CursorLeft { device_id } => {
                assert(h2.blocks@[v.spec_block_index()] == h1.blocks@[v.spec_block_index()]);
                device_id.encodes_mono(h1, h2, Value { word: h1.block_at(v).words@[0] });
            },
            WindowEvent::MouseWheel { device_id, delta, phase } => {
                assert(h2.blocks@[v.spec_block_index()] == h1.blocks@[v.spec_block_index()]);
                device_id.encodes_mono(h1, h2, Value { word: h1.block_at(v).words@[0] });
                delta.encodes_mono(h1, h2, Value { word: h1.block_at(v).words@[1] });
                phase.encodes_mono(h1, h2, Value { word: h1.block_at(v).words@[2] });
            },
            WindowEvent::MouseInput { device_id, state, button } => {
                assert(h2.blocks@[v.spec_block_index()] == h1.blocks@[v.spec_block_index()]);
                device_id.encodes_mono(h1, h2, Value { word: h1.block_at(v).words@[0] });
                state.encodes_mono(h1, h2, Value { word: h1.block_at(v).words@[1] });
                button.encodes_mono(h1, h2, Value { word: h1.block_at(v).words@[2] });
            },
            WindowEvent::TouchpadPressure { device_id, pressure, stage } => {
                assert(h2.blocks@[v.spec_block_index()] == h1.blocks@[v.spec_block_index()]);
                device_id.encodes_mono(h1, h2, Value { word: h1.block_at(v).words@[0] });
                pressure.encodes_mono(h1, h2, Value { word: h1.block_at(v).words@[1] });
                stage.encodes_mono(h1, h2, Value { word: h1.block_at(v).words@[2] });
            },
            WindowEvent::AxisMotion { device_id, axis, value } => {
                assert(h2.blocks@[v.spec_block_index()] == h1.blocks@[v.spec_block_index()]);
                device_id.encodes_mono(h1, h2, Value { word: h1.block_at(v).words@[0] });
                axis.encodes_mono(h1, h2, Value { word: h1.block_at(v).words@[1] });
                value.encodes_mono(h1, h2, Value { word: h1.block_at(v).words@[2] });
            },
            WindowEvent::Touch(touch) => {
                assert(h2.blocks@[v.spec_block_index()] == h1.blocks@[v.spec_block_index()]);
                touch.encodes_mono(h1, h2, Value { word: h1.block_at(v).words@[0] });
            },
            WindowEvent::ScaleFactorChanged { scale_factor, new_inner_size } => {
                assert(h2.blocks@[v.spec_block_index()] == h1.blocks@[v.spec_block_index()]);
                scale_factor.encodes_mono(h1, h2, Value { word: h1.block_at(v).words@[0] });
                new_inner_size.encodes_mono(h1, h2, Value { word: h1.block_at(v).words@[1] });
            },
            WindowEvent::ThemeChanged(theme) => {
                assert(h2.blocks@[v.spec_block_index()] == h1.blocks@[v.spec_block_index()]);
                theme.encodes_mono(h1, h2, Value { word: h1.block_at(v).words@[0] });
            },
        }
    }

    fn to_value(&self, h: &mut Heap) -> (v: Value) {
        match self {
            WindowEvent::Resized(size) => variant1(h, 0, size),
            WindowEvent::Moved(position) => variant1(h, 1, position),
            WindowEvent::CloseRequested => Value::of_int(0),
            WindowEvent::Destroyed => Value::of_int(1),
            WindowEvent::DroppedFile(path) => variant1(h, 2, path),
            WindowEvent::HoveredFile(path) => variant1(h, 3, path),
            WindowEvent::HoveredFileCancelled => Value::of_int(2),
            WindowEvent::ReceivedCharacter(text) => variant1(h, 4, text),
            WindowEvent::Focused(focused) => variant1(h, 5, focused),
            WindowEvent::KeyboardInput { device_id, input, is_synthetic } => variant3(h, 6, device_id, input, is_synthetic),
            WindowEvent::ModifiersChanged(state) => variant1(h, 7, state),
            WindowEvent::CursorMoved { device_id, position } => variant2(h, 8, device_id, position),
            WindowEvent::CursorEntered { device_id } => variant1(h, 9, device_id),
            WindowEvent::CursorLeft { device_id } => variant1(h, 10, device_id),
            WindowEvent::MouseWheel { device_id, delta, phase } => variant3(h, 11, device_id, delta, phase),
            WindowEvent::MouseInput { device_id, state, button } => variant3(h, 12, device_id, state, button),
            WindowEvent::TouchpadPressure { device_id, pressure, stage } => variant3(h, 13, device_id, pressure, stage),
            WindowEvent::AxisMotion { device_id, axis, value } => variant3(h, 14, device_id, axis, value),
            WindowEvent::Touch(touch) => variant1(h, 15, touch),
            WindowEvent::ScaleFactorChanged { scale_factor, new_inner_size } => variant2(h, 16, scale_factor, new_inner_size),
            WindowEvent::ThemeChanged(theme) => variant1(h, 17, theme),
        }
    }
}

/// A raw device notification. The native wheel, motion, button and key
/// payloads reach the host narrowed, as the consumer contract fixes:
/// which fields the embedder forwards and which it replaces with
/// placeholder values is its documented decision.
#[derive(Debug)]
pub enum DeviceEvent {
    Added,
    Removed,
    MouseMotion { delta: (i64, i64) },
    MouseWheel { delta: (i64, i64) },
    Motion { axis: i64, value: i64 },
    Button { button: i64, state: bool },
    Key(bool),
    Text { codepoint: Vec<u8> },
}

impl ToValue for DeviceEvent {
    open spec fn inv(&self, h: Heap) -> bool {
        match self {
            DeviceEvent::Added => true,
            DeviceEvent::Removed => true,
            DeviceEvent::MouseMotion { delta } => delta.inv(h),
            DeviceEvent::MouseWheel { delta } => delta.inv(h),
            DeviceEvent::Motion { axis, value } => axis.inv(h) && value.inv(h),
            DeviceEvent::Button { button, state } => button.inv(h) && state.inv(h),
            DeviceEvent::Key(pressed) => pressed.inv(h),
            DeviceEvent::Text { codepoint } => codepoint.inv(h),
        }
    }

    open spec fn blocks_needed(&self) -> nat {
        match self {
            DeviceEvent::Added => 0,
            DeviceEvent::Removed => 0,
            DeviceEvent::MouseMotion { delta } => 1 + delta.blocks_needed(),
            DeviceEvent::MouseWheel { delta } => 1 + delta.blocks_needed(),
            DeviceEvent::Motion { axis, value } => 1 + axis.blocks_needed() + value.blocks_needed(),
            DeviceEvent::Button { button, state } => 1 + button.blocks_needed() + state.blocks_needed(),
            DeviceEvent::Key(pressed) => 1 + pressed.blocks_needed(),
            DeviceEvent::Text { codepoint } => 1 + codepoint.blocks_needed(),
        }
    }

    open spec fn encodes(&self, h: Heap, v: Value) -> bool {
        match self {
            DeviceEvent::Added => v.spec_is_long() && v.spec_int_val() == 0,
            DeviceEvent::Removed => v.spec_is_long() && v.spec_int_val() == 1,
            DeviceEvent::MouseMotion { delta } => {
                &&& h.valid_block(v)
                &&& h.block_at(v).tag == 0
                &&& h.block_at(v).words@.len() == 1
                &&& delta.encodes(h, (Value { word: h.block_at(v).words@[0] }))
            },
            DeviceEvent::MouseWheel { delta } => {
                &&& h.valid_block(v)
                &&& h.block_at(v).tag == 1
                &&& h.block_at(v).words@.len() == 1
                &&& delta.encodes(h, (Value { word: h.block_at(v).words@[0] }))
            },
            DeviceEvent::Motion { axis, value } => {
                &&& h.valid_block(v)
                &&& h.block_at(v).tag == 2
                &&& h.block_at(v).words@.len() == 2
                &&& axis.encodes(h, (Value { word: h.block_at(v).words@[0] }))
                &&& value.encodes(h, (Value { word: h.block_at(v).words@[1] }))
            },
            DeviceEvent::Button { button, state } => {
                &&& h.valid_block(v)
                &&& h.block_at(v).tag == 3
                &&& h.block_at(v).words@.len() == 2
                &&& button.encodes(h, (Value { word: h.block_at(v).words@[0] }))
                &&& state.encodes(h, (Value { word: h.block_at(v).words@[1] }))
            },
            DeviceEvent::Key(pressed) => {
                &&& h.valid_block(v)
                &&& h.block_at(v).tag == 4
                &&& h.block_at(v).words@.len() == 1
                &&& pressed.encodes(h, (Value { word: h.block_at(v).words@[0] }))
            },
            DeviceEvent::Text { codepoint } => {
                &&& h.valid_block(v)
                &&& h.block_at(v).tag == 5
                &&& h.block_at(v).words@.len() == 1
                &&& codepoint.encodes(h, (Value { word: h.block_at(v).words@[0] }))
            },
        }
    }

    proof fn inv_mono(&self, h1: Heap, h2: Heap) {
        match self {
            DeviceEvent::Added => {},
            DeviceEvent::Removed => {},
            DeviceEvent::MouseMotion { delta } => {
                delta.inv_mono(h1, h2);
            },
            DeviceEvent::MouseWheel { delta } => {
                delta.inv_mono(h1, h2);
            },
            DeviceEvent::Motion { axis, value } => {
                axis.inv_mono(h1, h2);
                value.inv_mono(h1, h2);
            },
            DeviceEvent::Button { button, state } => {
                button.inv_mono(h1, h2);
                state.inv_mono(h1, h2);
            },
            DeviceEvent::Key(pressed) => {
                pressed.inv_mono(h1, h2);
            },
            DeviceEvent::Text { codepoint } => {
                codepoint.inv_mono(h1, h2);
            },
        }
    }

    proof fn encodes_mono(&self, h1: Heap, h2: Heap, v: Value) {
        match self {
            DeviceEvent::Added => {},
            DeviceEvent::Removed => {},
            DeviceEvent::MouseMotion { delta } => {
                assert(h2.blocks@[v.spec_block_index()] == h1.blocks@[v.spec_block_index()]);
                delta.encodes_mono(h1, h2, Value { word: h1.block_at(v).words@[0] });
            },
            DeviceEvent::MouseWheel { delta } => {
                assert(h2.blocks@[v.spec_block_index()] == h1.blocks@[v.spec_block_index()]);
                delta.encodes_mono(h1, h2, Value { word: h1.block_at(v).words@[0] });
            },
            DeviceEvent::Motion { axis, value } => {
                assert(h2.blocks@[v.spec_block_index()] == h1.blocks@[v.spec_block_index()]);
                axis.encodes_mono(h1, h2, Value { word: h1.block_at(v).words@[0] });
                value.encodes_mono(h1, h2, Value { word: h1.block_at(v).words@[1] });
            },
            DeviceEvent::Button { button, state } => {
                assert(h2.blocks@[v.spec_block_index()] == h1.blocks@[v.spec_block_index()]);
                button.encodes_mono(h1, h2, Value { word: h1.block_at(v).words@[0] });
                state.encodes_mono(h1, h2, Value { word: h1.block_at(v).words@[1] });
            },
            DeviceEvent::Key(pressed) => {
                assert(h2.blocks@[v.spec_block_index()] == h1.blocks@[v.spec_block_index()]);
                pressed.encodes_mono(h1, h2, Value { word: h1.block_at(v).words@[0] });
            },
            DeviceEvent::Text { codepoint } => {
                assert(h2.blocks@[v.spec_block_index()] == h1.blocks@[v.spec_block_index()]);
                codepoint.encodes_mono(h1, h2, Value { word: h1.block_at(v).words@[0] });
            },
        }
    }

    fn to_value(&self, h: &mut Heap) -> (v: Value) {
        match self {
            DeviceEvent::Added => Value::of_int(0),
            DeviceEvent::Removed => Value::of_int(1),
            DeviceEvent::MouseMotion { delta } => variant1(h, 0, delta),
            DeviceEvent::MouseWheel { delta } => variant1(h, 1, delta),
            DeviceEvent::Motion { axis, value } => variant2(h, 2, axis, value),
            DeviceEvent::Button { button, state } => variant2(h, 3, button, state),
            DeviceEvent::Key(pressed) => variant1(h, 4, pressed),
            DeviceEvent::Text { codepoint } => variant1(h, 5, codepoint),
        }
    }
}

/// A native notification of any kind: lifecycle, window or device.
#[derive(Debug)]
pub enum Event {
    NewEvents(StartCause),
    WindowEvent { window_id: Value, event: WindowEvent },
    DeviceEvent { device_id: Value, event: DeviceEvent },
    UserEvent(Value),
    Suspended,
    Resumed,
    MainEventsCleared,
    RedrawRequested(Value),
    RedrawEventsCleared,
    LoopDestroyed,
}

impl ToValue for Event {
    open spec fn inv(&self, h: Heap) -> bool {
        match self {
            Event::NewEvents(cause) => cause.inv(h),
            Event::WindowEvent { window_id, event } => window_id.inv(h) && event.inv(h),
            Event::DeviceEvent { device_id, event } => device_id.inv(h) && event.inv(h),
            Event::UserEvent(payload) => payload.inv(h),
            Event::Suspended => true,
            Event::Resumed => true,
            Event::MainEventsCleared => true,
            Event::RedrawRequested(window_id) => window_id.inv(h),
            Event::RedrawEventsCleared => true,
            Event::LoopDestroyed => true,
        }
    }

    open spec fn blocks_needed(&self) -> nat {
        match self {
            Event::NewEvents(cause) => 1 + cause.blocks_needed(),
            Event::WindowEvent { window_id, event } => 1 + window_id.blocks_needed() + event.blocks_needed(),
            Event::DeviceEvent { device_id, event } => 1 + device_id.blocks_needed() + event.blocks_needed(),
            Event::UserEvent(payload) => 1 + payload.blocks_needed(),
            Event::Suspended => 0,
            Event::Resumed => 0,
            Event::MainEventsCleared => 0,
            Event::RedrawRequested(window_id) => 1 + window_id.blocks_needed(),
            Event::RedrawEventsCleared => 0,
            Event::LoopDestroyed => 0,
        }
    }

    open spec fn encodes(&self, h: Heap, v: Value) -> bool {
        match self {
            Event::NewEvents(cause) => {
                &&& h.valid_block(v)
                &&& h.block_at(v).tag == 0
                &&& h.block_at(v).words@.len() == 1
                &&& cause.encodes(h, (Value { word: h.block_at(v).words@[0] }))
            },
            Event::WindowEvent { window_id, event } => {
                &&& h.valid_block(v)
                &&& h.block_at(v).tag == 1
                &&& h.block_at(v).words@.len() == 2
                &&& window_id.encodes(h, (Value { word: h.block_at(v).words@[0] }))
                &&& event.encodes(h, (Value { word: h.block_at(v).words@[1] }))
            },
            Event::DeviceEvent { device_id, event } => {
                &&& h.valid_block(v)
                &&& h.block_at(v).tag == 2
                &&& h.block_at(v).words@.len() == 2
                &&& device_id.encodes(h, (Value { word: h.block_at(v).words@[0] }))
                &&& event.encodes(h, (Value { word: h.block_at(v).words@[1] }))
            },
            Event::UserEvent(payload) => {
                &&& h.valid_block(v)
                &&& h.block_at(v).tag == 3
                &&& h.block_at(v).words@.len() == 1
                &&& payload.encodes(h, (Value { word: h.block_at(v).words@[0] }))
            },
            Event::Suspended => v.spec_is_long() && v.spec_int_val() == 0,
            Event::Resumed => v.spec_is_long() && v.spec_int_val() == 1,
            Event::MainEventsCleared => v.spec_is_long() && v.spec_int_val() == 2,
            Event::RedrawRequested(window_id) => {
                &&& h.valid_block(v)
                &&& h.block_at(v).tag == 4
                &&& h.block_at(v).words@.len() == 1
                &&& window_id.encodes(h, (Value { word: h.block_at(v).words@[0] }))
            },
            Event::RedrawEventsCleared => v.spec_is_long() && v.spec_int_val() == 3,
            Event::LoopDestroyed => v.spec_is_long() && v.spec_int_val() == 4,
        }
    }

    proof fn inv_mono(&self, h1: Heap, h2: Heap) {
        match self {
            Event::NewEvents(cause) => {
                cause.inv_mono(h1, h2);
            },
            Event::WindowEvent { window_id, event } => {
                window_id.inv_mono(h1, h2);
                event.inv_mono(h1, h2);
            },
            Event::DeviceEvent { device_id, event } => {
                device_id.inv_mono(h1, h2);
                event.inv_mono(h1, h2);
            },
            Event::UserEvent(payload) => {
                payload.inv_mono(h1, h2);
            },
            Event::Suspended => {},
            Event::Resumed => {},
            Event::MainEventsCleared => {},
            Event::RedrawRequested(window_id) => {
                window_id.inv_mono(h1, h2);
            },
            Event::RedrawEventsCleared => {},
            Event::LoopDestroyed => {},
        }
    }

    proof fn encodes_mono(&self, h1: Heap, h2: Heap, v: Value) {
        match self {
            Event::NewEvents(cause) => {
                assert(h2.blocks@[v.spec_block_index()] == h1.blocks@[v.spec_block_index()]);
                cause.encodes_mono(h1, h2, Value { word: h1.block_at(v).words@[0] });
            },
            Event::WindowEvent { window_id, event } => {
                assert(h2.blocks@[v.spec_block_index()] == h1.blocks@[v.spec_block_index()]);
                window_id.encodes_mono(h1, h2, Value { word: h1.block_at(v).words@[0] });
                event.encodes_mono(h1, h2, Value { word: h1.block_at(v).words@[1] });
            },
            Event::DeviceEvent { device_id, event } => {
                assert(h2.blocks@[v.spec_block_index()] == h1.blocks@[v.spec_block_index()]);
                device_id.encodes_mono(h1, h2, Value { word: h1.block_at(v).words@[0] });
                event.encodes_mono(h1, h2, Value { word: h1.block_at(v).words@[1] });
            },
            Event::UserEvent(payload) => {
                assert(h2.blocks@[v.spec_block_index()] == h1.blocks@[v.spec_block_index()]);
                payload.encodes_mono(h1, h2, Value { word: h1.block_at(v).words@[0] });
            },
            Event::Suspended => {},
            Event::Resumed => {},
            Event::MainEventsCleared => {},
            Event::RedrawRequested(window_id) => {
                assert(h2.blocks@[v.spec_block_index()] == h1.blocks@[v.spec_block_index()]);
                window_id.encodes_mono(h1, h2, Value { word: h1.block_at(v).words@[0] });
            },
            Event::RedrawEventsCleared => {},
            Event::LoopDestroyed => {},
        }
    }

    fn to_value(&self, h: &mut Heap) -> (v: Value) {
        match self {
            Event::NewEvents(cause) => variant1(h, 0, cause),
            Event::WindowEvent { window_id, event } => variant2(h, 1, window_id, event),
            Event::DeviceEvent { device_id, event } => variant2(h, 2, device_id, event),
            Event::UserEvent(payload) => variant1(h, 3, payload),
            Event::Suspended => Value::of_int(0),
            Event::Resumed => Value::of_int(1),
            Event::MainEventsCleared => Value::of_int(2),
            Event::RedrawRequested(window_id) => variant1(h, 4, window_id),
            Event::RedrawEventsCleared => Value::of_int(3),
            Event::LoopDestroyed => Value::of_int(4),
        }
    }
}

impl FromValue for Theme {
    fn from_value(h: &Heap, v: Value) -> (r: Result<Theme, BridgeError>) {
        if v.is_long() {
            let n = v.int_val();
            if n == 0 {
                proof {
                    assert(Theme::Light.encodes(*h, v));
                }
                Ok(Theme::Light)
            } else if n == 1 {
                proof {
                    assert(Theme::Dark.encodes(*h, v));
                }
                Ok(Theme::Dark)
            } else {
                proof {
                    if exists|x: Theme| #[trigger] x.encodes(*h, v) {
                        let x = choose|x: Theme| #[trigger] x.encodes(*h, v);
                        assert(false);
                    }
                }
                Err(BridgeError::UnsupportedConversion)
            }
        } else {
            proof {
                if exists|x: Theme| #[trigger] x.encodes(*h, v) {
                    let x = choose|x: Theme| #[trigger] x.encodes(*h, v);
                    assert(false);
                }
            }
            Err(BridgeError::UnsupportedConversion)
        }
    }

    proof fn encodes_injective(x: Theme, y: Theme, h: Heap, v: Value) {
    }
}

} // verus!
