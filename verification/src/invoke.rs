//! The synchronous call mechanism: invoking host closures and unwrapping
//! host-side exceptions.
//!
//! A host closure is a block with the closure tag whose first environment
//! word selects its behaviour (a small script): return a constant, throw a
//! stored exception value, select one of two results by the shape of the
//! first argument, or return the first argument. The call functions check
//! callability first — invoking a non-closure fails with
//! [`BridgeError::NotCallable`] and touches nothing — then apply the
//! closure and inspect the raw result: an exception-result sentinel is
//! detected, its payload extracted and returned as
//! [`BridgeError::HostException`], so callers never see raw sentinels.
//! The calls take the heap immutably: a failed or throwing call allocates
//! nothing.

use vstd::prelude::*;

use crate::convert::BridgeError;
use crate::heap::{Heap, HEAP_LIMIT};
use crate::tag::TAG_CLOSURE;
use crate::value::Value;

verus! {

/// Behaviour selector: return the stored environment value unchanged.
pub const SCRIPT_CONST: i64 = 0;

/// Behaviour selector: raise the stored environment value (a block) as a
/// host exception.
pub const SCRIPT_THROW: i64 = 1;

/// Behaviour selector: return the second environment value when the first
/// argument is an immediate, the third when it is a block.
pub const SCRIPT_SELECT: i64 = 2;

/// Behaviour selector: return the first argument.
pub const SCRIPT_IDENT: i64 = 3;

/// `f` is a callable closure block of `h`.
pub open spec fn is_closure(h: Heap, f: Value) -> bool {
    h.valid_block(f) && h.block_at(f).tag == TAG_CLOSURE
}

/// The raw word the host application of closure `f` to `args` hands back.
/// A word that is 2 modulo 4 is an exception-result sentinel carrying the
/// thrown block. A closure whose environment does not fit its behaviour
/// selector returns the unit immediate.
pub open spec fn apply_spec(h: Heap, f: Value, args: Seq<Value>) -> u64 {
    let b = h.block_at(f);
    let first: Value = if args.len() > 0 {
        args[0]
    } else {
        Value { word: 1 }
    };
    if b.words@.len() == 0 || b.words@[0] % 2 == 0 {
        1
    } else {
        let kind = (Value { word: b.words@[0] }).spec_int_val();
        if kind == SCRIPT_CONST && b.words@.len() >= 2 {
            b.words@[1]
        } else if kind == SCRIPT_THROW && b.words@.len() >= 2 && b.words@[1] % 4 == 0 {
            (b.words@[1] + 2) as u64
        } else if kind == SCRIPT_SELECT && b.words@.len() >= 3 {
            if first.spec_is_long() {
                b.words@[1]
            } else {
                b.words@[2]
            }
        } else if kind == SCRIPT_IDENT {
            first.word
        } else {
            1
        }
    }
}

/// What a call returns: `NotCallable` on anything that is not a closure
/// block; otherwise the application's result, with an exception-result
/// sentinel unwrapped into `HostException` carrying the thrown value.
pub open spec fn call_spec(h: Heap, f: Value, args: Seq<Value>) -> Result<Value, BridgeError> {
    if !is_closure(h, f) {
        Err(BridgeError::NotCallable)
    } else {
        let w = apply_spec(h, f, args);
        if w % 4 == 2 {
            Err(BridgeError::HostException(Value { word: (w - 2) as u64 }))
        } else {
            Ok(Value { word: w })
        }
    }
}

/// On a well-formed heap a call yields a valid value, and a host exception
/// carries a valid block.
pub proof fn lemma_call_spec_valid(h: Heap, f: Value, args: Seq<Value>)
    requires
        h.wf(),
        h.valid_value(f),
        forall|i: int| 0 <= i < args.len() ==> h.valid_value(#[trigger] args[i]),
    ensures
        match call_spec(h, f, args) {
            Ok(v) => h.valid_value(v),
            Err(e) => match e {
                BridgeError::HostException(x) => h.valid_block(x),
                _ => true,
            },
        },
{
    if is_closure(h, f) {
        let b = h.block_at(f);
        assert(h.block_wf(f.spec_block_index()));
        if b.words@.len() >= 2 {
            assert(h.valid_word(b.words@[1]));
        }
        if b.words@.len() >= 3 {
            assert(h.valid_word(b.words@[2]));
        }
        if args.len() > 0 {
            assert(h.valid_value(args[0]));
        }
    }
}

/// A call's outcome only reads the callee's block, which extending the
/// heap leaves unchanged, so the outcome is the same in the extended heap.
pub proof fn lemma_call_spec_extend(h1: Heap, h2: Heap, f: Value, args: Seq<Value>)
    requires
        h1.valid_value(f),
        h1.extended_by(h2),
    ensures
        call_spec(h2, f, args) == call_spec(h1, f, args),
{
    if !f.spec_is_long() {
        assert(h2.blocks@[f.spec_block_index()] == h1.blocks@[f.spec_block_index()]);
    }
}

/// Invoking anything that is not a closure block fails with `NotCallable`,
/// whatever the arguments; and since every call function takes the heap
/// immutably, a rejected call has no allocation side effect.
pub proof fn lemma_not_callable(h: Heap, f: Value, args: Seq<Value>)
    requires
        !is_closure(h, f),
    ensures
        call_spec(h, f, args) == Err::<Value, BridgeError>(BridgeError::NotCallable),
{
}

/// The host application primitive over a scripted closure.
fn apply(h: &Heap, f: Value, args: &Vec<Value>) -> (w: u64)
    requires
        h.wf(),
        is_closure(*h, f),
    ensures
        w == apply_spec(*h, f, args@),
{
    let sz = h.size(f);
    if sz == 0 {
        return 1;
    }
    let w0 = h.raw_word(f, 0);
    if w0 % 2 == 0 {
        return 1;
    }
    let kv = Value { word: w0 };
    let k = kv.int_val();
    if k == SCRIPT_CONST && sz >= 2 {
        h.raw_word(f, 1)
    } else if k == SCRIPT_THROW && sz >= 2 {
        let e = h.raw_word(f, 1);
        if e % 4 == 0 {
            e + 2
        } else {
            1
        }
    } else if k == SCRIPT_SELECT && sz >= 3 {
        let first = if args.len() > 0 {
            args[0]
        } else {
            Value::unit()
        };
        if first.is_long() {
            h.raw_word(f, 1)
        } else {
            h.raw_word(f, 2)
        }
    } else if k == SCRIPT_IDENT {
        if args.len() > 0 {
            args[0].word
        } else {
            1
        }
    } else {
        1
    }
}

/// Invokes a host closure on an argument sequence: the callee's tag is
/// checked first (the one invocation-time check the bridge performs
/// itself), and an exception sentinel in the raw result is unwrapped into
/// a structured error.
pub fn call_n(h: &Heap, f: Value, args: &Vec<Value>) -> (r: Result<Value, BridgeError>)
    requires
        h.wf(),
        h.valid_value(f),
        forall|i: int| 0 <= i < args@.len() ==> h.valid_value(#[trigger] args@[i]),
    ensures
        r == call_spec(*h, f, args@),
        r is Ok ==> h.valid_value(r->Ok_0),
        match r {
            Err(e) => match e {
                BridgeError::HostException(x) => h.valid_block(x),
                _ => true,
            },
            Ok(_) => true,
        },
{
    let callable = match h.tag_checked(f) {
        Some(t) => t == TAG_CLOSURE,
        None => false,
    };
    if !callable {
        return Err(BridgeError::NotCallable);
    }
    let w = apply(h, f, args);
    proof {
        lemma_call_spec_valid(*h, f, args@);
    }
    let wv = Value { word: w };
    if wv.is_exception_result() {
        Err(BridgeError::HostException(wv.extract_exception()))
    } else {
        Ok(wv)
    }
}

/// One-argument call.
pub fn call(h: &Heap, f: Value, a1: Value) -> (r: Result<Value, BridgeError>)
    requires
        h.wf(),
        h.valid_value(f),
        h.valid_value(a1),
    ensures
        r == call_spec(*h, f, seq![a1]),
        r is Ok ==> h.valid_value(r->Ok_0),
        match r {
            Err(e) => match e {
                BridgeError::HostException(x) => h.valid_block(x),
                _ => true,
            },
            Ok(_) => true,
        },
{
    let args = vec![a1];
    proof {
        assert(args@ =~= seq![a1]);
    }
    call_n(h, f, &args)
}

/// Two-argument call.
pub fn call2(h: &Heap, f: Value, a1: Value, a2: Value) -> (r: Result<Value, BridgeError>)
    requires
        h.wf(),
        h.valid_value(f),
        h.valid_value(a1),
        h.valid_value(a2),
    ensures
        r == call_spec(*h, f, seq![a1, a2]),
        r is Ok ==> h.valid_value(r->Ok_0),
        match r {
            Err(e) => match e {
                BridgeError::HostException(x) => h.valid_block(x),
                _ => true,
            },
            Ok(_) => true,
        },
{
    let args = vec![a1, a2];
    proof {
        assert(args@ =~= seq![a1, a2]);
    }
    call_n(h, f, &args)
}

/// Three-argument call.
pub fn call3(h: &Heap, f: Value, a1: Value, a2: Value, a3: Value) -> (r: Result<
    Value,
    BridgeError,
>)
    requires
        h.wf(),
        h.valid_value(f),
        h.valid_value(a1),
        h.valid_value(a2),
        h.valid_value(a3),
    ensures
        r == call_spec(*h, f, seq![a1, a2, a3]),
        r is Ok ==> h.valid_value(r->Ok_0),
        match r {
            Err(e) => match e {
                BridgeError::HostException(x) => h.valid_block(x),
                _ => true,
            },
            Ok(_) => true,
        },
{
    let args = vec![a1, a2, a3];
    proof {
        assert(args@ =~= seq![a1, a2, a3]);
    }
    call_n(h, f, &args)
}

/// A valid value is never an exception-result sentinel.
proof fn lemma_valid_not_sentinel(h: Heap, w: u64)
    requires
        h.valid_word(w),
    ensures
        w % 4 != 2,
{
    if w % 2 == 1 {
        assert(w % 4 != 2) by (nonlinear_arith)
            requires
                w % 2 == 1,
        ;
    }
}

/// Allocates a closure that returns `result`, whatever its arguments.
pub fn make_const_closure(h: &mut Heap, result: Value) -> (f: Value)
    requires
        old(h).wf(),
        old(h).valid_value(result),
        old(h).blocks@.len() < HEAP_LIMIT,
    ensures
        final(h).wf(),
        old(h).extended_by(*final(h)),
        final(h).blocks@.len() == old(h).blocks@.len() + 1,
        final(h).valid_value(f),
        is_closure(*final(h), f),
        forall|args: Seq<Value>|
            #[trigger] call_spec(*final(h), f, args) == Ok::<Value, BridgeError>(result),
{
    let ghost h0 = *old(h);
    let b = h.alloc_block(2, TAG_CLOSURE);
    let kv = Value::of_int(SCRIPT_CONST);
    h.store_field(b, 0, kv);
    proof {
        crate::heap::lemma_valid_word_extended(h0, *h, result.word);
    }
    h.store_field(b, 1, result);
    proof {
        assert(h.block_at(b).words@ =~= seq![kv.word, result.word]);
        lemma_valid_not_sentinel(*h, result.word);
        assert forall|args: Seq<Value>| #[trigger] call_spec(*h, b, args) == Ok::<
            Value,
            BridgeError,
        >(result) by {
            assert((Value { word: h.block_at(b).words@[0] }) == kv);
            assert(apply_spec(*h, b, args) == result.word);
            assert((Value { word: result.word }) == result);
        }
    }
    b
}

/// Allocates a closure that raises `exn` (a block, as host exceptions are)
/// as a host exception, whatever its arguments.
pub fn make_throw_closure(h: &mut Heap, exn: Value) -> (f: Value)
    requires
        old(h).wf(),
        old(h).valid_block(exn),
        old(h).blocks@.len() < HEAP_LIMIT,
    ensures
        final(h).wf(),
        old(h).extended_by(*final(h)),
        final(h).blocks@.len() == old(h).blocks@.len() + 1,
        final(h).valid_value(f),
        is_closure(*final(h), f),
        forall|args: Seq<Value>|
            #[trigger] call_spec(*final(h), f, args) == Err::<Value, BridgeError>(
                BridgeError::HostException(exn),
            ),
{
    let ghost h0 = *old(h);
    let b = h.alloc_block(2, TAG_CLOSURE);
    let kv = Value::of_int(SCRIPT_THROW);
    h.store_field(b, 0, kv);
    proof {
        assert(h0.valid_word(exn.word));
        crate::heap::lemma_valid_word_extended(h0, *h, exn.word);
    }
    h.store_field(b, 1, exn);
    proof {
        assert(h.block_at(b).words@ =~= seq![kv.word, exn.word]);
        assert forall|args: Seq<Value>| #[trigger] call_spec(*h, b, args) == Err::<
            Value,
            BridgeError,
        >(BridgeError::HostException(exn)) by {
            assert((Value { word: h.block_at(b).words@[0] }) == kv);
            assert(exn.word % 4 == 0);
            assert(apply_spec(*h, b, args) == (exn.word + 2) as u64);
            assert(((exn.word + 2) as u64) % 4 == 2);
            assert((Value { word: ((exn.word + 2) as u64 - 2) as u64 }) == exn);
        }
    }
    b
}

/// Allocates a closure that returns `if_imm` when its first argument is an
/// immediate and `if_block` when it is a block — the host deciding on the
/// shape of the event it is handed.
pub fn make_select_closure(h: &mut Heap, if_imm: Value, if_block: Value) -> (f: Value)
    requires
        old(h).wf(),
        old(h).valid_value(if_imm),
        old(h).valid_value(if_block),
        old(h).blocks@.len() < HEAP_LIMIT,
    ensures
        final(h).wf(),
        old(h).extended_by(*final(h)),
        final(h).blocks@.len() == old(h).blocks@.len() + 1,
        final(h).valid_value(f),
        is_closure(*final(h), f),
        forall|args: Seq<Value>|
            args.len() > 0 ==> #[trigger] call_spec(*final(h), f, args) == Ok::<Value, BridgeError>(
                if args[0].spec_is_long() {
                    if_imm
                } else {
                    if_block
                },
            ),
{
    let ghost h0 = *old(h);
    let b = h.alloc_block(3, TAG_CLOSURE);
    let kv = Value::of_int(SCRIPT_SELECT);
    h.store_field(b, 0, kv);
    proof {
        crate::heap::lemma_valid_word_extended(h0, *h, if_imm.word);
        crate::heap::lemma_valid_word_extended(h0, *h, if_block.word);
    }
    h.store_field(b, 1, if_imm);
    h.store_field(b, 2, if_block);
    proof {
        assert(h.block_at(b).words@ =~= seq![kv.word, if_imm.word, if_block.word]);
        lemma_valid_not_sentinel(*h, if_imm.word);
        lemma_valid_not_sentinel(*h, if_block.word);
        assert forall|args: Seq<Value>| args.len() > 0 implies #[trigger] call_spec(*h, b, args)
            == Ok::<Value, BridgeError>(
            if args[0].spec_is_long() {
                if_imm
            } else {
                if_block
            },
        ) by {
            assert((Value { word: h.block_at(b).words@[0] }) == kv);
            if args[0].spec_is_long() {
                assert(apply_spec(*h, b, args) == if_imm.word);
                assert((Value { word: if_imm.word }) == if_imm);
            } else {
                assert(apply_spec(*h, b, args) == if_block.word);
                assert((Value { word: if_block.word }) == if_block);
            }
        }
    }
    b
}

/// Allocates the identity closure: it returns its first argument.
pub fn make_ident_closure(h: &mut Heap) -> (f: Value)
    requires
        old(h).wf(),
        old(h).blocks@.len() < HEAP_LIMIT,
    ensures
        final(h).wf(),
        old(h).extended_by(*final(h)),
        final(h).blocks@.len() == old(h).blocks@.len() + 1,
        final(h).valid_value(f),
        is_closure(*final(h), f),
        forall|args: Seq<Value>|
            args.len() > 0 && final(h).valid_value(args[0]) ==> #[trigger] call_spec(
                *final(h),
                f,
                args,
            ) == Ok::<Value, BridgeError>(args[0]),
{
    let b = h.alloc_block(1, TAG_CLOSURE);
    let kv = Value::of_int(SCRIPT_IDENT);
    h.store_field(b, 0, kv);
    proof {
        assert(h.block_at(b).words@ =~= seq![kv.word]);
        assert forall|args: Seq<Value>|
            args.len() > 0 && h.valid_value(args[0]) implies #[trigger] call_spec(*h, b, args)
            == Ok::<Value, BridgeError>(args[0]) by {
            assert((Value { word: h.block_at(b).words@[0] }) == kv);
            assert(apply_spec(*h, b, args) == args[0].word);
            lemma_valid_not_sentinel(*h, args[0].word);
            assert((Value { word: args[0].word }) == args[0]);
        }
    }
    b
}

} // verus!
