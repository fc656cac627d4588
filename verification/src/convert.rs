//! Conversion contracts between native types and bridge values.
//!
//! [`ToValue`] is the total, possibly-allocating projection of a native
//! type into a [`Value`]; [`FromValue`] is the partial projection back.
//! Each type states its encoding relation (`encodes`) once; `to_value`
//! establishes it, `from_value` succeeds exactly on encodings and inverts
//! them, and the per-type injectivity proof makes the round trip exact:
//! [`round_trip`] proves `from_value(to_value(x)) == x` for every type
//! carrying both conversions. Tuples and options compose field-wise;
//! enumeration constructors map by position within their declaration,
//! constant constructors counted apart from payload-carrying ones.

use vstd::prelude::*;

use crate::heap::{lemma_extended_by_trans, lemma_valid_word_extended, Heap, HEAP_LIMIT};
use crate::tag::TAG_TUPLE;
use crate::value::{Value, MAX_INT, MIN_INT};

verus! {

/// The errors of the bridge.
#[derive(Clone, Copy, PartialEq, Eq, Structural, Debug)]
pub enum BridgeError {
    /// Invocation was attempted on a value that is not a closure block.
    NotCallable,
    /// A host-side exception was raised during a call-out; the payload is
    /// the thrown value.
    HostException(Value),
    /// A native resource is gone, e.g. the event loop was already consumed
    /// or the heap cannot grow further.
    ResourceUnavailable,
    /// A conversion (or clone) this bridge does not support.
    UnsupportedConversion,
}

/// A type that can be losslessly projected into a bridge value.
pub trait ToValue: Sized {
    /// The inhabitants that can be encoded at all: integers within the
    /// immediate range, embedded values that are valid in `h`, and so on.
    spec fn inv(&self, h: Heap) -> bool;

    /// Upper bound on the number of blocks one projection allocates.
    spec fn blocks_needed(&self) -> nat;

    /// The encoding relation: `v` represents `self` in heap `h`.
    spec fn encodes(&self, h: Heap, v: Value) -> bool;

    /// Encodability is not lost when the heap merely grows.
    proof fn inv_mono(&self, h1: Heap, h2: Heap)
        requires
            self.inv(h1),
            h1.extended_by(h2),
        ensures
            self.inv(h2),
    ;

    /// The encoding relation survives heap extension.
    proof fn encodes_mono(&self, h1: Heap, h2: Heap, v: Value)
        requires
            self.encodes(h1, v),
            h1.extended_by(h2),
        ensures
            self.encodes(h2, v),
    ;

    /// Projects `self` into a value that encodes it.
    fn to_value(&self, h: &mut Heap) -> (v: Value)
        requires
            old(h).wf(),
            self.inv(*old(h)),
            old(h).blocks@.len() + self.blocks_needed() <= HEAP_LIMIT,
        ensures
            final(h).wf(),
            old(h).extended_by(*final(h)),
            final(h).blocks@.len() <= old(h).blocks@.len() + self.blocks_needed(),
            final(h).valid_value(v),
            self.encodes(*final(h), v),
    ;
}

/// A type that can be projected back out of a bridge value.
pub trait FromValue: ToValue {
    /// Succeeds exactly on the values that encode some inhabitant, and
    /// returns the unique inhabitant encoded.
    fn from_value(h: &Heap, v: Value) -> (r: Result<Self, BridgeError>)
        requires
            h.wf(),
            h.valid_value(v),
        ensures
            (r is Ok) == exists|x: Self| #[trigger] x.encodes(*h, v),
            r is Ok ==> (r->Ok_0).encodes(*h, v) && (r->Ok_0).inv(*h),
            r is Err ==> r->Err_0 == BridgeError::UnsupportedConversion,
    ;

    /// At most one inhabitant encodes any given value.
    proof fn encodes_injective(x: Self, y: Self, h: Heap, v: Value)
        requires
            x.encodes(h, v),
            y.encodes(h, v),
        ensures
            x == y,
    ;
}

/// The round-trip law: projecting an encodable `x` into a value and back
/// yields `x` again, for every type carrying both conversions.
pub fn round_trip<X: ToValue + FromValue + Copy>(x: X, h: &mut Heap) -> (r: X)
    requires
        old(h).wf(),
        x.inv(*old(h)),
        old(h).blocks@.len() + x.blocks_needed() <= HEAP_LIMIT,
    ensures
        r == x,
        final(h).wf(),
        old(h).extended_by(*final(h)),
{
    let v = x.to_value(h);
    match X::from_value(h, v) {
        Ok(y) => {
            proof {
                X::encodes_injective(x, y, *h, v);
            }
            y
        },
        Err(_) => {
            proof {
                assert(x.encodes(*h, v));
                assert(false);
            }
            x
        },
    }
}

impl ToValue for i64 {
    open spec fn inv(&self, h: Heap) -> bool {
        MIN_INT <= *self <= MAX_INT
    }

    open spec fn blocks_needed(&self) -> nat {
        0
    }

    open spec fn encodes(&self, h: Heap, v: Value) -> bool {
        v.spec_is_long() && v.spec_int_val() == *self
    }

    proof fn inv_mono(&self, h1: Heap, h2: Heap) {
    }

    proof fn encodes_mono(&self, h1: Heap, h2: Heap, v: Value) {
    }

    fn to_value(&self, h: &mut Heap) -> (v: Value) {
        Value::of_int(*self)
    }
}

impl FromValue for i64 {
    fn from_value(h: &Heap, v: Value) -> (r: Result<i64, BridgeError>) {
        if v.is_long() {
            let n = v.int_val();
            proof {
                assert(n.encodes(*h, v));
            }
            Ok(n)
        } else {
            Err(BridgeError::UnsupportedConversion)
        }
    }

    proof fn encodes_injective(x: i64, y: i64, h: Heap, v: Value) {
    }
}

impl ToValue for bool {
    open spec fn inv(&self, h: Heap) -> bool {
        true
    }

    open spec fn blocks_needed(&self) -> nat {
        0
    }

    open spec fn encodes(&self, h: Heap, v: Value) -> bool {
        v.spec_is_long() && v.spec_int_val() == (if *self {
            1int
        } else {
            0int
        })
    }

    proof fn inv_mono(&self, h1: Heap, h2: Heap) {
    }

    proof fn encodes_mono(&self, h1: Heap, h2: Heap, v: Value) {
    }

    fn to_value(&self, h: &mut Heap) -> (v: Value) {
        Value::of_bool(*self)
    }
}

impl FromValue for bool {
    fn from_value(h: &Heap, v: Value) -> (r: Result<bool, BridgeError>) {
        if v.is_long() {
            let n = v.int_val();
            if n == 0 {
                proof {
                    assert(false.encodes(*h, v));
                }
                Ok(false)
            } else if n == 1 {
                proof {
                    assert(true.encodes(*h, v));
                }
                Ok(true)
            } else {
                Err(BridgeError::UnsupportedConversion)
            }
        } else {
            Err(BridgeError::UnsupportedConversion)
        }
    }

    proof fn encodes_injective(x: bool, y: bool, h: Heap, v: Value) {
    }
}

impl ToValue for () {
    open spec fn inv(&self, h: Heap) -> bool {
        true
    }

    open spec fn blocks_needed(&self) -> nat {
        0
    }

    open spec fn encodes(&self, h: Heap, v: Value) -> bool {
        v.spec_is_long() && v.spec_int_val() == 0
    }

    proof fn inv_mono(&self, h1: Heap, h2: Heap) {
    }

    proof fn encodes_mono(&self, h1: Heap, h2: Heap, v: Value) {
    }

    fn to_value(&self, h: &mut Heap) -> (v: Value) {
        Value::unit()
    }
}

impl FromValue for () {
    fn from_value(h: &Heap, v: Value) -> (r: Result<(), BridgeError>) {
        if v.is_long() {
            let n = v.int_val();
            if n == 0 {
                proof {
                    assert(().encodes(*h, v));
                }
                Ok(())
            } else {
                Err(BridgeError::UnsupportedConversion)
            }
        } else {
            Err(BridgeError::UnsupportedConversion)
        }
    }

    proof fn encodes_injective(x: (), y: (), h: Heap, v: Value) {
    }
}

impl<T: ToValue> ToValue for Option<T> {
    open spec fn inv(&self, h: Heap) -> bool {
        match self {
            None => true,
            Some(t) => t.inv(h),
        }
    }

    open spec fn blocks_needed(&self) -> nat {
        match self {
            None => 0,
            Some(t) => 1 + t.blocks_needed(),
        }
    }

    open spec fn encodes(&self, h: Heap, v: Value) -> bool {
        match self {
            None => v.spec_is_long() && v.spec_int_val() == 0,
            Some(t) => {
                &&& h.valid_block(v)
                &&& h.block_at(v).tag == TAG_TUPLE
                &&& h.block_at(v).words@.len() == 1
                &&& t.encodes(h, Value { word: h.block_at(v).words@[0] })
            },
        }
    }

    proof fn inv_mono(&self, h1: Heap, h2: Heap) {
        match self {
            None => {},
            Some(t) => t.inv_mono(h1, h2),
        }
    }

    proof fn encodes_mono(&self, h1: Heap, h2: Heap, v: Value) {
        match self {
            None => {},
            Some(t) => {
                assert(h2.blocks@[v.spec_block_index()] == h1.blocks@[v.spec_block_index()]);
                t.encodes_mono(h1, h2, Value { word: h1.block_at(v).words@[0] });
            },
        }
    }

    fn to_value(&self, h: &mut Heap) -> (v: Value) {
        match self {
            None => Value::none(),
            Some(t) => {
                let ghost h0 = *h;
                let fv = t.to_value(h);
                let ghost h1 = *h;
                let b = h.alloc_block(1, TAG_TUPLE);
                let ghost h2 = *h;
                proof {
                    lemma_valid_word_extended(h1, h2, fv.word);
                }
                h.store_field(b, 0, fv);
                proof {
                    assert(h1.extended_by(*h)) by {
                        assert(forall|i: int|
                            0 <= i < h1.blocks@.len() ==> (*h).blocks@[i]
                                == #[trigger] h1.blocks@[i]);
                    }
                    lemma_extended_by_trans(h0, h1, *h);
                    t.encodes_mono(h1, *h, fv);
                    assert(h.block_at(b).words@ =~= seq![fv.word]);
                }
                b
            },
        }
    }
}

impl<T: FromValue> FromValue for Option<T> {
    fn from_value(h: &Heap, v: Value) -> (r: Result<Option<T>, BridgeError>) {
        if v.is_long() {
            let n = v.int_val();
            if n == 0 {
                proof {
                    assert(Option::<T>::None.encodes(*h, v));
                }
                Ok(None)
            } else {
                Err(BridgeError::UnsupportedConversion)
            }
        } else {
            proof {
                assert(h.valid_block(v));
            }
            let t = h.tag(v);
            let sz = h.size(v);
            if t == TAG_TUPLE && sz == 1 {
                let fv = h.field(v, 0);
                match T::from_value(h, fv) {
                    Ok(x) => {
                        proof {
                            assert(Some(x).encodes(*h, v));
                        }
                        Ok(Some(x))
                    },
                    Err(e) => {
                        proof {
                            if exists|o: Option<T>| #[trigger] o.encodes(*h, v) {
                                let o = choose|o: Option<T>| #[trigger] o.encodes(*h, v);
                                match o {
                                    None => assert(false),
                                    Some(y) => {
                                        assert(y.encodes(*h, fv));
                                        assert(false);
                                    },
                                }
                            }
                        }
                        Err(BridgeError::UnsupportedConversion)
                    },
                }
            } else {
                proof {
                    if exists|o: Option<T>| #[trigger] o.encodes(*h, v) {
                        let o = choose|o: Option<T>| #[trigger] o.encodes(*h, v);
                        match o {
                            None => assert(false),
                            Some(y) => assert(false),
                        }
                    }
                }
                Err(BridgeError::UnsupportedConversion)
            }
        }
    }

    proof fn encodes_injective(x: Option<T>, y: Option<T>, h: Heap, v: Value) {
        match (x, y) {
            (Some(a), Some(b)) => {
                T::encodes_injective(a, b, h, Value { word: h.block_at(v).words@[0] });
            },
            _ => {},
        }
    }
}

impl<A: ToValue, B: ToValue> ToValue for (A, B) {
    open spec fn inv(&self, h: Heap) -> bool {
        self.0.inv(h) && self.1.inv(h)
    }

    open spec fn blocks_needed(&self) -> nat {
        1 + self.0.blocks_needed() + self.1.blocks_needed()
    }

    open spec fn encodes(&self, h: Heap, v: Value) -> bool {
        &&& h.valid_block(v)
        &&& h.block_at(v).tag == TAG_TUPLE
        &&& h.block_at(v).words@.len() == 2
        &&& self.0.encodes(h, Value { word: h.block_at(v).words@[0] })
        &&& self.1.encodes(h, Value { word: h.block_at(v).words@[1] })
    }

    proof fn inv_mono(&self, h1: Heap, h2: Heap) {
        self.0.inv_mono(h1, h2);
        self.1.inv_mono(h1, h2);
    }

    proof fn encodes_mono(&self, h1: Heap, h2: Heap, v: Value) {
        assert(h2.blocks@[v.spec_block_index()] == h1.blocks@[v.spec_block_index()]);
        self.0.encodes_mono(h1, h2, Value { word: h1.block_at(v).words@[0] });
        self.1.encodes_mono(h1, h2, Value { word: h1.block_at(v).words@[1] });
    }

    fn to_value(&self, h: &mut Heap) -> (v: Value) {
        let ghost h0 = *h;
        proof {
            self.0.inv_mono(h0, h0);
        }
        let av = self.0.to_value(h);
        let ghost h1 = *h;
        proof {
            self.1.inv_mono(h0, h1);
        }
        let bv = self.1.to_value(h);
        let ghost h2 = *h;
        let b = h.alloc_block(2, TAG_TUPLE);
        let ghost h3 = *h;
        proof {
            lemma_extended_by_trans(h1, h2, h3);
            lemma_valid_word_extended(h1, h3, av.word);
        }
        h.store_field(b, 0, av);
        let ghost h4 = *h;
        proof {
            assert(h2.extended_by(h4)) by {
                assert(forall|i: int|
                    0 <= i < h2.blocks@.len() ==> h4.blocks@[i] == #[trigger] h2.blocks@[i]);
            }
            lemma_valid_word_extended(h2, h4, bv.word);
        }
        h.store_field(b, 1, bv);
        proof {
            assert(h2.extended_by(*h)) by {
                assert(forall|i: int|
                    0 <= i < h2.blocks@.len() ==> (*h).blocks@[i] == #[trigger] h2.blocks@[i]);
            }
            lemma_extended_by_trans(h0, h1, h2);
            lemma_extended_by_trans(h0, h2, *h);
            assert(h.block_at(b).words@ =~= seq![av.word, bv.word]);
            self.0.encodes_mono(h1, h2, av);
            self.0.encodes_mono(h2, *h, av);
            self.1.encodes_mono(h2, *h, bv);
        }
        b
    }
}

impl<A: FromValue, B: FromValue> FromValue for (A, B) {
    fn from_value(h: &Heap, v: Value) -> (r: Result<(A, B), BridgeError>) {
        if v.is_block() {
            proof {
                assert(h.valid_block(v));
            }
            let t = h.tag(v);
            let sz = h.size(v);
            if t == TAG_TUPLE && sz == 2 {
                let av = h.field(v, 0);
                let bv = h.field(v, 1);
                match (A::from_value(h, av), B::from_value(h, bv)) {
                    (Ok(a), Ok(b)) => {
                        proof {
                            assert((a, b).encodes(*h, v));
                        }
                        Ok((a, b))
                    },
                    _ => {
                        proof {
                            if exists|p: (A, B)| #[trigger] p.encodes(*h, v) {
                                let p = choose|p: (A, B)| #[trigger] p.encodes(*h, v);
                                assert(p.0.encodes(*h, av));
                                assert(p.1.encodes(*h, bv));
                                assert(false);
                            }
                        }
                        Err(BridgeError::UnsupportedConversion)
                    },
                }
            } else {
                proof {
                    if exists|p: (A, B)| #[trigger] p.encodes(*h, v) {
                        let p = choose|p: (A, B)| #[trigger] p.encodes(*h, v);
                        assert(false);
                    }
                }
                Err(BridgeError::UnsupportedConversion)
            }
        } else {
            proof {
                if exists|p: (A, B)| #[trigger] p.encodes(*h, v) {
                    let p = choose|p: (A, B)| #[trigger] p.encodes(*h, v);
                    assert(false);
                }
            }
            Err(BridgeError::UnsupportedConversion)
        }
    }

    proof fn encodes_injective(x: (A, B), y: (A, B), h: Heap, v: Value) {
        A::encodes_injective(x.0, y.0, h, Value { word: h.block_at(v).words@[0] });
        B::encodes_injective(x.1, y.1, h, Value { word: h.block_at(v).words@[1] });
    }
}

} // verus!
