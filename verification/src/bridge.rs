//! The run-loop bridge: control-flow directives, the once-consumable event
//! loop slot, per-event dispatch to the host closure, and the millisecond
//! clock deltas that cross the boundary.
//!
//! The native loop hands one event per iteration to the bridge; the bridge
//! converts it, invokes the host closure with (event, window-target
//! placeholder, current directive), converts the returned directive back,
//! and feeds it to the native loop. `WaitUntil` deadlines cross the
//! boundary as signed millisecond deltas relative to "now" at conversion
//! time — negative meaning already elapsed — because no shared clock epoch
//! between the two runtimes is assumed.

use vstd::prelude::*;

use crate::convert::{BridgeError, FromValue, ToValue};
use crate::heap::{lemma_extended_by_trans, lemma_valid_word_extended, Heap, HEAP_LIMIT};
use crate::invoke::{call3, call_spec, is_closure, lemma_call_spec_extend};
use crate::tag::{TAG_STRING, TAG_TUPLE};
use crate::value::{unit_value, Value, MAX_INT, MIN_INT};

verus! {

/// The four-valued control directive governing the native run loop between
/// event batches. The `WaitUntil` deadline is a signed millisecond delta
/// relative to now.
#[derive(Clone, Copy, PartialEq, Eq, Structural, Debug)]
pub enum Directive {
    Poll,
    Wait,
    WaitUntil(i64),
    Exit,
}

impl ToValue for Directive {
    /// Constant constructors are numbered among themselves (`Poll` 0,
    /// `Wait` 1, `Exit` 2); `WaitUntil` is the first payload-carrying
    /// constructor, a one-field block.
    open spec fn encodes(&self, h: Heap, v: Value) -> bool {
        match self {
            Directive::Poll => v.spec_is_long() && v.spec_int_val() == 0,
            Directive::Wait => v.spec_is_long() && v.spec_int_val() == 1,
            Directive::Exit => v.spec_is_long() && v.spec_int_val() == 2,
            Directive::WaitUntil(ms) => {
                &&& h.valid_block(v)
                &&& h.block_at(v).tag == TAG_TUPLE
                &&& h.block_at(v).words@.len() == 1
                &&& ms.encodes(h, Value { word: h.block_at(v).words@[0] })
            },
        }
    }

    open spec fn inv(&self, h: Heap) -> bool {
        match self {
            Directive::WaitUntil(ms) => MIN_INT <= *ms <= MAX_INT,
            _ => true,
        }
    }

    open spec fn blocks_needed(&self) -> nat {
        match self {
            Directive::WaitUntil(_) => 1,
            _ => 0,
        }
    }

    proof fn inv_mono(&self, h1: Heap, h2: Heap) {
    }

    proof fn encodes_mono(&self, h1: Heap, h2: Heap, v: Value) {
        match self {
            Directive::WaitUntil(ms) => {
                assert(h2.blocks@[v.spec_block_index()] == h1.blocks@[v.spec_block_index()]);
            },
            _ => {},
        }
    }

    fn to_value(&self, h: &mut Heap) -> (v: Value) {
        match self {
            Directive::Poll => Value::of_int(0),
            Directive::Wait => Value::of_int(1),
            Directive::Exit => Value::of_int(2),
            Directive::WaitUntil(ms) => {
                let fv = Value::of_int(*ms);
                let b = h.alloc_block(1, TAG_TUPLE);
                h.store_field(b, 0, fv);
                proof {
                    assert(h.block_at(b).words@ =~= seq![fv.word]);
                }
                b
            },
        }
    }
}

impl FromValue for Directive {
    fn from_value(h: &Heap, v: Value) -> (r: Result<Directive, BridgeError>) {
        if v.is_long() {
            let n = v.int_val();
            if n == 0 {
                proof {
                    assert(Directive::Poll.encodes(*h, v));
                }
                Ok(Directive::Poll)
            } else if n == 1 {
                proof {
                    assert(Directive::Wait.encodes(*h, v));
                }
                Ok(Directive::Wait)
            } else if n == 2 {
                proof {
                    assert(Directive::Exit.encodes(*h, v));
                }
                Ok(Directive::Exit)
            } else {
                proof {
                    if exists|x: Directive| #[trigger] x.encodes(*h, v) {
                        let x = choose|x: Directive| #[trigger] x.encodes(*h, v);
                        assert(false);
                    }
                }
                Err(BridgeError::UnsupportedConversion)
            }
        } else {
            proof {
                assert(h.valid_block(v));
            }
            let t = h.tag(v);
            let sz = h.size(v);
            if t == TAG_TUPLE && sz == 1 {
                let fv = h.field(v, 0);
                if fv.is_long() {
                    let ms = fv.int_val();
                    proof {
                        assert(Directive::WaitUntil(ms).encodes(*h, v));
                    }
                    Ok(Directive::WaitUntil(ms))
                } else {
                    proof {
                        if exists|x: Directive| #[trigger] x.encodes(*h, v) {
                            let x = choose|x: Directive| #[trigger] x.encodes(*h, v);
                            assert(false);
                        }
                    }
                    Err(BridgeError::UnsupportedConversion)
                }
            } else {
                proof {
                    if exists|x: Directive| #[trigger] x.encodes(*h, v) {
                        let x = choose|x: Directive| #[trigger] x.encodes(*h, v);
                        assert(false);
                    }
                }
                Err(BridgeError::UnsupportedConversion)
            }
        }
    }

    proof fn encodes_injective(x: Directive, y: Directive, h: Heap, v: Value) {
        match (x, y) {
            (Directive::WaitUntil(a), Directive::WaitUntil(b)) => {
                i64::encodes_injective(a, b, h, Value { word: h.block_at(v).words@[0] });
            },
            _ => {},
        }
    }
}

/// Phases of the run-loop entry point: constructed, blocking and
/// dispatching, or exited for good.
#[derive(Clone, Copy, PartialEq, Eq, Structural, Debug)]
pub enum LoopPhase {
    Idle,
    Running,
    Terminated,
}

/// The bridge side of a native event loop: a once-consumable slot holding
/// the native loop object (by its store identifier), and the phase of the
/// run-loop entry point.
#[derive(Clone, Copy, PartialEq, Eq, Structural, Debug)]
pub struct RunLoop {
    pub slot: Option<u64>,
    pub phase: LoopPhase,
}

impl RunLoop {
    /// A freshly constructed loop bridge owning the native object `native_id`.
    pub fn new(native_id: u64) -> (r: RunLoop)
        ensures
            r.slot == Some(native_id),
            r.phase == LoopPhase::Idle,
    {
        RunLoop { slot: Some(native_id), phase: LoopPhase::Idle }
    }

    /// Consumes the native loop object and enters the running phase.
    /// Ownership transfers exactly once: a second start finds the slot
    /// empty and fails with `ResourceUnavailable` ("no event loop").
    pub fn start(&mut self) -> (r: Result<u64, BridgeError>)
        ensures
            match r {
                Ok(id) => {
                    &&& old(self).phase == LoopPhase::Idle
                    &&& old(self).slot == Some(id)
                    &&& final(self).slot is None
                    &&& final(self).phase == LoopPhase::Running
                },
                Err(e) => {
                    &&& e == BridgeError::ResourceUnavailable
                    &&& *final(self) == *old(self)
                    &&& (old(self).slot is None || old(self).phase != LoopPhase::Idle)
                },
            },
    {
        if self.phase == LoopPhase::Idle {
            match self.slot {
                Some(id) => {
                    self.slot = None;
                    self.phase = LoopPhase::Running;
                    Ok(id)
                },
                None => Err(BridgeError::ResourceUnavailable),
            }
        } else {
            Err(BridgeError::ResourceUnavailable)
        }
    }

    /// The native loop signalled exit; the entry point is absorbed into the
    /// native exit machinery and never hands control back.
    pub fn terminate(&mut self)
        requires
            old(self).phase == LoopPhase::Running,
        ensures
            final(self).phase == LoopPhase::Terminated,
            final(self).slot == old(self).slot,
    {
        self.phase = LoopPhase::Terminated;
    }
}

/// One completed step of the run loop in heap `h`: the host closure,
/// applied to `event`, the window-target placeholder and an encoding of
/// the directive `cur` in force, returned a value that encodes `next`.
pub open spec fn dispatch_step(
    h: Heap,
    closure: Value,
    event: Value,
    cur: Directive,
    next: Directive,
) -> bool {
    exists|cfv: Value, rv: Value|
        {
            &&& #[trigger] cur.encodes(h, cfv)
            &&& call_spec(h, closure, seq![event, unit_value(), cfv]) == Ok::<Value, BridgeError>(
                rv,
            )
            &&& #[trigger] next.encodes(h, rv)
        }
}

/// Dispatching `event` while `cur` was in force failed with `e` in heap
/// `h`: the closure is not a callable block, the call raised the carried
/// host exception, or it returned a value that no directive decodes from.
/// No other failure exists; in particular a dispatch never runs out of
/// resources.
pub open spec fn dispatch_fails(
    h: Heap,
    closure: Value,
    event: Value,
    cur: Directive,
    e: BridgeError,
) -> bool {
    match e {
        BridgeError::NotCallable => !is_closure(h, closure),
        BridgeError::HostException(x) => h.valid_block(x) && exists|cfv: Value|
            {
                &&& #[trigger] cur.encodes(h, cfv)
                &&& call_spec(h, closure, seq![event, unit_value(), cfv]) == Err::<
                    Value,
                    BridgeError,
                >(BridgeError::HostException(x))
            },
        BridgeError::ResourceUnavailable => false,
        BridgeError::UnsupportedConversion => exists|cfv: Value, rv: Value|
            {
                &&& #[trigger] cur.encodes(h, cfv)
                &&& #[trigger] h.valid_value(rv)
                &&& call_spec(h, closure, seq![event, unit_value(), cfv]) == Ok::<
                    Value,
                    BridgeError,
                >(rv)
                &&& forall|d: Directive| !d.encodes(h, rv)
            },
    }
}

/// A completed step survives extending the heap: the closure's block and
/// the witnessing values are unchanged.
pub proof fn lemma_dispatch_step_extend(
    h1: Heap,
    h2: Heap,
    closure: Value,
    event: Value,
    cur: Directive,
    next: Directive,
)
    requires
        h1.valid_value(closure),
        h1.extended_by(h2),
        dispatch_step(h1, closure, event, cur, next),
    ensures
        dispatch_step(h2, closure, event, cur, next),
{
    let (cfv, rv): (Value, Value) = choose|cfv: Value, rv: Value|
        {
            &&& #[trigger] cur.encodes(h1, cfv)
            &&& call_spec(h1, closure, seq![event, unit_value(), cfv]) == Ok::<Value, BridgeError>(
                rv,
            )
            &&& #[trigger] next.encodes(h1, rv)
        };
    cur.encodes_mono(h1, h2, cfv);
    lemma_call_spec_extend(h1, h2, closure, seq![event, unit_value(), cfv]);
    next.encodes_mono(h1, h2, rv);
    assert(cur.encodes(h2, cfv) && next.encodes(h2, rv));
}

/// One iteration of the running loop: converts the directive in force,
/// invokes the host closure with (event, window-target placeholder,
/// directive), and converts the returned value into the next directive.
/// A non-callable closure, a host exception, and an unconvertible result
/// are fatal for the loop and handed back unchanged.
pub fn dispatch_event(h: &mut Heap, closure: Value, event: Value, current: Directive) -> (r:
    Result<Directive, BridgeError>)
    requires
        old(h).wf(),
        old(h).valid_value(closure),
        old(h).valid_value(event),
        current.inv(*old(h)),
        old(h).blocks@.len() + 1 <= HEAP_LIMIT,
    ensures
        final(h).wf(),
        old(h).extended_by(*final(h)),
        final(h).blocks@.len() <= old(h).blocks@.len() + 1,
        (r == Err::<Directive, BridgeError>(BridgeError::NotCallable)) == !is_closure(
            *final(h),
            closure,
        ),
        match r {
            Ok(d) => d.inv(*final(h)) && dispatch_step(*final(h), closure, event, current, d),
            Err(e) => dispatch_fails(*final(h), closure, event, current, e),
        },
{
    let ghost h0 = *old(h);
    proof {
        assert(current.blocks_needed() <= 1);
    }
    let cfv = current.to_value(h);
    proof {
        lemma_valid_word_extended(h0, *h, closure.word);
        lemma_valid_word_extended(h0, *h, event.word);
    }
    let target = Value::unit();
    let res = call3(h, closure, event, target, cfv);
    proof {
        assert(seq![event, target, cfv] =~= seq![event, unit_value(), cfv]);
    }
    match res {
        Ok(v) => {
            match Directive::from_value(h, v) {
                Ok(d) => {
                    proof {
                        assert(current.encodes(*h, cfv));
                        assert(call_spec(*h, closure, seq![event, unit_value(), cfv]) == Ok::<
                            Value,
                            BridgeError,
                        >(v));
                        assert(d.encodes(*h, v));
                    }
                    Ok(d)
                },
                Err(_) => {
                    proof {
                        assert(current.encodes(*h, cfv));
                        assert(h.valid_value(v));
                        assert(call_spec(*h, closure, seq![event, unit_value(), cfv]) == Ok::<
                            Value,
                            BridgeError,
                        >(v));
                        assert forall|d: Directive| !d.encodes(*h, v) by {
                            if d.encodes(*h, v) {
                                assert(exists|x: Directive| #[trigger] x.encodes(*h, v));
                            }
                        }
                    }
                    Err(BridgeError::UnsupportedConversion)
                },
            }
        },
        Err(e) => {
            proof {
                if e is HostException {
                    assert(current.encodes(*h, cfv));
                }
            }
            Err(e)
        },
    }
}

/// `trace` is a run of the loop over `events` in heap `h`: it starts at
/// `initial`, each later directive came out of dispatching the event at
/// that position to `closure` while its predecessor was in force, and no
/// directive between the first and the last is `Exit` — the loop would
/// have stopped there.
pub open spec fn pump_trace(
    h: Heap,
    closure: Value,
    events: Seq<Value>,
    initial: Directive,
    trace: Seq<Directive>,
) -> bool {
    &&& 1 <= trace.len() <= events.len() + 1
    &&& trace[0] == initial
    &&& forall|j: int|
        0 <= j < trace.len() - 1 ==> dispatch_step(
            h,
            closure,
            events[j],
            #[trigger] trace[j],
            trace[j + 1],
        )
    &&& forall|j: int| 1 <= j < trace.len() - 1 ==> #[trigger] trace[j] != Directive::Exit
}

/// Drives a sequence of already-converted native events through the host
/// closure, starting from the directive `initial`: per iteration one
/// dispatch, the returned directive feeding the next, until the host
/// directs `Exit`, a fatal error surfaces, or the events run out. Returns
/// how many events were dispatched and the directive then in force, the
/// last of a run of the loop ([`pump_trace`]) over exactly that many
/// events; the count falls short of the events only when the host exited.
/// On a failure, a run over the dispatched prefix never reached `Exit`
/// and dispatching the next event failed as the error says.
pub fn pump_events(h: &mut Heap, closure: Value, events: &Vec<Value>, initial: Directive) -> (r:
    Result<(usize, Directive), BridgeError>)
    requires
        old(h).wf(),
        old(h).valid_value(closure),
        forall|i: int| 0 <= i < events@.len() ==> old(h).valid_value(#[trigger] events@[i]),
        initial.inv(*old(h)),
        old(h).blocks@.len() + events@.len() + 1 <= HEAP_LIMIT,
    ensures
        final(h).wf(),
        old(h).extended_by(*final(h)),
        match r {
            Ok(p) => {
                &&& p.0 <= events@.len()
                &&& p.1.inv(*final(h))
                &&& (p.0 < events@.len() ==> p.1 == Directive::Exit)
                &&& (p.0 == 0 ==> p.1 == initial)
                &&& (events@.len() > 0 ==> p.0 >= 1)
                &&& exists|trace: Seq<Directive>|
                    {
                        &&& #[trigger] pump_trace(*final(h), closure, events@, initial, trace)
                        &&& trace.len() == p.0 + 1
                        &&& p.1 == trace[p.0 as int]
                    }
            },
            Err(e) => {
                &&& e != BridgeError::ResourceUnavailable
                &&& exists|trace: Seq<Directive>|
                    {
                        &&& #[trigger] pump_trace(*final(h), closure, events@, initial, trace)
                        &&& trace.len() <= events@.len()
                        &&& forall|j: int|
                            1 <= j < trace.len() ==> #[trigger] trace[j] != Directive::Exit
                        &&& dispatch_fails(
                            *final(h),
                            closure,
                            events@[trace.len() - 1],
                            trace[trace.len() - 1],
                            e,
                        )
                    }
            },
        },
{
    let mut current = initial;
    let mut i: usize = 0;
    let n = events.len();
    let ghost mut trace: Seq<Directive> = seq![initial];
    while i < n
        invariant_except_break
            i > 0 ==> current != Directive::Exit,
        invariant
            h.wf(),
            old(h).extended_by(*h),
            n == events@.len(),
            i <= n,
            h.blocks@.len() <= old(h).blocks@.len() + i,
            old(h).blocks@.len() + events@.len() + 1 <= HEAP_LIMIT,
            h.valid_value(closure),
            forall|j: int| 0 <= j < events@.len() ==> old(h).valid_value(#[trigger] events@[j]),
            current.inv(*h),
            trace.len() == i + 1,
            trace[0] == initial,
            current == trace[i as int],
            forall|j: int|
                0 <= j < i ==> dispatch_step(
                    *h,
                    closure,
                    events@[j],
                    #[trigger] trace[j],
                    trace[j + 1],
                ),
            forall|j: int| 1 <= j < i ==> #[trigger] trace[j] != Directive::Exit,
        ensures
            h.wf(),
            old(h).extended_by(*h),
            i <= n,
            current.inv(*h),
            i < n ==> current == Directive::Exit,
            n > 0 ==> i >= 1,
            trace.len() == i + 1,
            trace[0] == initial,
            current == trace[i as int],
            forall|j: int|
                0 <= j < i ==> dispatch_step(
                    *h,
                    closure,
                    events@[j],
                    #[trigger] trace[j],
                    trace[j + 1],
                ),
            forall|j: int| 1 <= j < i ==> #[trigger] trace[j] != Directive::Exit,
        decreases n - i,
    {
        let ghost hpre = *h;
        let ev = events[i];
        proof {
            lemma_valid_word_extended(*old(h), *h, ev.word);
        }
        match dispatch_event(h, closure, ev, current) {
            Ok(d) => {
                proof {
                    lemma_extended_by_trans(*old(h), hpre, *h);
                    // the steps recorded so far survive the dispatch's
                    // allocations
                    assert forall|j: int| 0 <= j < i implies dispatch_step(
                        *h,
                        closure,
                        events@[j],
                        #[trigger] trace[j],
                        trace[j + 1],
                    ) by {
                        lemma_dispatch_step_extend(
                            hpre,
                            *h,
                            closure,
                            events@[j],
                            trace[j],
                            trace[j + 1],
                        );
                    }
                    trace = trace.push(d);
                    assert(dispatch_step(
                        *h,
                        closure,
                        events@[i as int],
                        trace[i as int],
                        trace[i as int + 1],
                    ));
                }
                current = d;
                i += 1;
                match current {
                    Directive::Exit => {
                        break ;
                    },
                    _ => {},
                }
            },
            Err(e) => {
                proof {
                    lemma_extended_by_trans(*old(h), hpre, *h);
                    assert forall|j: int| 0 <= j < i implies dispatch_step(
                        *h,
                        closure,
                        events@[j],
                        #[trigger] trace[j],
                        trace[j + 1],
                    ) by {
                        lemma_dispatch_step_extend(
                            hpre,
                            *h,
                            closure,
                            events@[j],
                            trace[j],
                            trace[j + 1],
                        );
                    }
                    assert(pump_trace(*h, closure, events@, initial, trace));
                    assert(dispatch_fails(*h, closure, events@[i as int], trace[i as int], e));
                }
                return Err(e);
            },
        }
    }
    proof {
        assert(pump_trace(*h, closure, events@, initial, trace));
    }
    Ok((i, current))
}

/// A point on the bridge's monotonic millisecond clock. The embedder
/// samples the native clock into this form; only deltas between two such
/// points ever cross the boundary.
#[derive(Clone, Copy, PartialEq, Eq, Structural, Debug)]
pub struct MonoTime {
    pub millis: u64,
}

/// Millisecond delta of `target` relative to `now`: positive when `target`
/// lies in the future, negative when it has already elapsed.
pub fn isize_from_instant(now: MonoTime, target: MonoTime) -> (d: isize)
    requires
        target.millis - now.millis <= isize::MAX,
        target.millis - now.millis >= isize::MIN,
    ensures
        d == target.millis - now.millis,
{
    if target.millis >= now.millis {
        let diff = target.millis - now.millis;
        diff as isize
    } else {
        let diff = now.millis - target.millis;
        if diff <= isize::MAX as u64 {
            -(diff as isize)
        } else {
            isize::MIN
        }
    }
}

/// The clock point `n` milliseconds after `now`. A sum beyond the clock's
/// range has no representation and is excluded here, so the addition can
/// never abort.
pub fn now_plus_millis(now: MonoTime, n: u64) -> (r: MonoTime)
    requires
        now.millis + n <= u64::MAX,
    ensures
        r.millis == now.millis + n,
{
    MonoTime { millis: now.millis + n }
}

/// Builds the host-exception error that carries `err` as a string block:
/// how a failure is raised back to the host runtime. It allocates exactly
/// that one fresh block and nothing else.
#[allow(non_snake_case)]
pub fn Val_Exn(h: &mut Heap, err: &Vec<u8>) -> (r: BridgeError)
    requires
        old(h).wf(),
        old(h).blocks@.len() < HEAP_LIMIT,
    ensures
        final(h).wf(),
        old(h).extended_by(*final(h)),
        match r {
            BridgeError::HostException(v) => {
                &&& final(h).blocks@.len() == old(h).blocks@.len() + 1
                &&& v.spec_block_index() == old(h).blocks@.len()
                &&& final(h).valid_block(v)
                &&& final(h).block_at(v).tag == TAG_STRING
                &&& final(h).block_at(v).words@.len() == err@.len()
                &&& forall|j: int|
                    0 <= j < err@.len() ==> final(h).block_at(v).words@[j] == err@[j] as u64
            },
            _ => false,
        },
{
    let v = h.alloc_bytes(err);
    BridgeError::HostException(v)
}

} // verus!
