//! The tagged machine-word representation of bridge values.
//!
//! A `Value` is a single word with two disjoint shapes, told apart by the
//! low bit:
//!
//! * *immediate* (a "long"): an integer `n` stored as `2 * n + 1`, so the
//!   low bit is set; it is never dereferenced;
//! * *block reference*: a word divisible by four, referring to the
//!   header-prefixed heap block with index `word / 4`.
//!
//! Words that are `2 modulo 4` are reserved for the exception-result
//! sentinel of the call mechanism: such a word is never a valid value, and
//! carries the block reference `word - 2`.

use vstd::prelude::*;

verus! {

/// Smallest integer representable as an immediate (-2^62).
pub const MIN_INT: i64 = -0x4000_0000_0000_0000;

/// Largest integer representable as an immediate (2^62 - 1).
pub const MAX_INT: i64 = 0x3FFF_FFFF_FFFF_FFFF;

/// The unit value's word: the immediate zero.
pub open spec fn unit_value() -> Value {
    Value { word: 1 }
}

/// A bridge value: one machine word, either an immediate integer or a
/// reference to a heap block.
#[derive(Clone, Copy, PartialEq, Eq, Structural, Debug)]
pub struct Value {
    pub word: u64,
}

impl Value {
    /// An immediate has its low bit set.
    pub open spec fn spec_is_long(self) -> bool {
        self.word % 2 == 1
    }

    /// Anything with a clear low bit counts as a block-shaped word.
    pub open spec fn spec_is_block(self) -> bool {
        self.word % 2 == 0
    }

    /// A well-formed block reference is divisible by four; words that are
    /// 2 modulo 4 are the exception-result sentinels.
    pub open spec fn spec_is_block_ref(self) -> bool {
        self.word % 4 == 0
    }

    /// The heap index a block reference points at.
    pub open spec fn spec_block_index(self) -> int {
        (self.word as int) / 4
    }

    /// The integer an immediate stands for.
    pub open spec fn spec_int_val(self) -> int {
        let k = (self.word as int) / 2;
        if k < 0x4000_0000_0000_0000 {
            k
        } else {
            k - 0x8000_0000_0000_0000
        }
    }

    /// Exception-result sentinels are 2 modulo 4.
    pub open spec fn spec_is_exception_result(self) -> bool {
        self.word % 4 == 2
    }

    pub fn is_long(&self) -> (r: bool)
        ensures
            r == self.spec_is_long(),
    {
        self.word % 2 == 1
    }

    pub fn is_block(&self) -> (r: bool)
        ensures
            r == self.spec_is_block(),
    {
        self.word % 2 == 0
    }

    /// Builds the immediate for `n`. The representation holds 63-bit
    /// integers; the bounds are a machine limit of the encoding.
    pub fn of_int(n: i64) -> (v: Value)
        requires
            MIN_INT <= n <= MAX_INT,
        ensures
            v.spec_is_long(),
            v.spec_int_val() == n,
    {
        if n >= 0 {
            Value { word: (n as u64) * 2 + 1 }
        } else {
            let a = n - MIN_INT;
            Value { word: ((a as u64) + 0x4000_0000_0000_0000) * 2 + 1 }
        }
    }

    /// Reads the integer out of an immediate.
    pub fn int_val(&self) -> (n: i64)
        requires
            self.spec_is_long(),
        ensures
            n == self.spec_int_val(),
            MIN_INT <= n <= MAX_INT,
    {
        let k = self.word / 2;
        if k < 0x4000_0000_0000_0000 {
            k as i64
        } else {
            let m = 0x8000_0000_0000_0000u64 - k;
            -(m as i64)
        }
    }

    /// The unit value, an immediate zero.
    pub fn unit() -> (v: Value)
        ensures
            v == unit_value(),
            v.spec_is_long(),
            v.spec_int_val() == 0,
    {
        Value { word: 1 }
    }

    /// Booleans are the immediates zero and one.
    pub fn of_bool(b: bool) -> (v: Value)
        ensures
            v.spec_is_long(),
            v.spec_int_val() == (if b { 1int } else { 0int }),
    {
        if b {
            Value { word: 3 }
        } else {
            Value { word: 1 }
        }
    }

    /// The `none` encoding, an immediate zero.
    pub fn none() -> (v: Value)
        ensures
            v.spec_is_long(),
            v.spec_int_val() == 0,
    {
        Value { word: 1 }
    }

    /// Builds the reference to the block with index `idx`.
    pub fn of_block_index(idx: usize) -> (v: Value)
        requires
            idx < 0x4000_0000_0000_0000,
        ensures
            v.spec_is_block(),
            v.spec_is_block_ref(),
            v.spec_block_index() == idx,
    {
        Value { word: (idx as u64) * 4 }
    }

    /// Reads the heap index out of a block reference.
    pub fn block_index(&self) -> (idx: usize)
        requires
            self.spec_is_block_ref(),
            self.spec_block_index() <= usize::MAX,
        ensures
            idx == self.spec_block_index(),
    {
        (self.word / 4) as usize
    }

    /// Wraps a thrown block into the reserved exception-result encoding.
    /// The result is not a valid value; it is consumed by the call
    /// mechanism and never stored.
    pub fn make_exception_result(self) -> (r: Value)
        requires
            self.spec_is_block_ref(),
        ensures
            r.spec_is_exception_result(),
            r.word == self.word + 2,
    {
        Value { word: self.word + 2 }
    }

    pub fn is_exception_result(&self) -> (r: bool)
        ensures
            r == self.spec_is_exception_result(),
    {
        self.word % 4 == 2
    }

    /// Retrieves the thrown value carried by an exception-result sentinel.
    pub fn extract_exception(self) -> (r: Value)
        requires
            self.spec_is_exception_result(),
        ensures
            r.spec_is_block_ref(),
            r.word == self.word - 2,
    {
        Value { word: self.word - 2 }
    }
}

/// Tag discipline: every word is a block shape or an immediate, never both
/// and never neither.
pub proof fn lemma_block_xor_long(v: Value)
    ensures
        v.spec_is_block() != v.spec_is_long(),
{
}

/// An exception-result sentinel is never a well-formed block reference,
/// and never an immediate.
pub proof fn lemma_exception_result_is_no_value(v: Value)
    requires
        v.spec_is_exception_result(),
    ensures
        !v.spec_is_block_ref(),
        !v.spec_is_long(),
{
}

} // verus!
