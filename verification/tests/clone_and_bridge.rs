use re_winit::bridge::{
    dispatch_event, isize_from_instant, now_plus_millis, pump_events, Directive, LoopPhase,
    MonoTime, RunLoop, Val_Exn,
};
use re_winit::clone_graph::{deep_clone_to_host, deep_clone_to_native, NativeVal};
use re_winit::convert::{round_trip, BridgeError, ToValue};
use re_winit::events::{PhysicalSize, WindowEvent};
use re_winit::heap::Heap;
use re_winit::invoke::{make_const_closure, make_select_closure};
use re_winit::tag::{TAG_STRING, TAG_TUPLE};
use re_winit::value::{Value, MAX_INT, MIN_INT};

#[test]
fn deep_clone_is_structurally_equal_and_disjoint() {
    let mut h = Heap::new();
    let inner = (1i64, true).to_value(&mut h);
    let outer = h.alloc_some(inner);
    let clone = deep_clone_to_host(&mut h, outer, 10).unwrap();

    // same structure
    assert_ne!(clone, outer);
    assert_eq!(h.tag(clone), TAG_TUPLE);
    assert_eq!(h.size(clone), 1);
    let ci = h.field(clone, 0);
    assert_ne!(ci, inner);
    assert_eq!(h.size(ci), 2);
    assert_eq!(h.field(ci, 0).int_val(), 1);
    assert_eq!(h.field(ci, 1).int_val(), 1);

    // disjoint storage: mutating the original leaves the clone alone
    h.store_field(inner, 0, Value::of_int(42));
    assert_eq!(h.field(ci, 0).int_val(), 1);
    // and the other way around
    h.store_field(ci, 1, Value::of_int(0));
    assert_eq!(h.field(inner, 1).int_val(), 1);
}

#[test]
fn deep_clone_copies_opaque_payloads_verbatim() {
    let mut h = Heap::new();
    let bytes = b"payload".to_vec();
    let s = h.alloc_bytes(&bytes);
    let c = deep_clone_to_host(&mut h, s, 2).unwrap();
    assert_ne!(c, s);
    assert_eq!(h.tag(c), TAG_STRING);
    assert_eq!(h.size(c), bytes.len());
    for (i, &x) in bytes.iter().enumerate() {
        assert_eq!(h.raw_word(c, i), x as u64);
    }
}

#[test]
fn deep_clone_is_identity_on_immediates() {
    let mut h = Heap::new();
    let v = Value::of_int(-5);
    assert_eq!(deep_clone_to_host(&mut h, v, 0).unwrap(), v);
}

#[test]
fn deep_clone_rejects_cycles() {
    let mut h = Heap::new();
    let a = h.alloc_block(1, TAG_TUPLE);
    h.store_field(a, 0, a);
    assert_eq!(deep_clone_to_host(&mut h, a, 64), Err(BridgeError::UnsupportedConversion));
    assert!(matches!(
        deep_clone_to_native(&h, a, 64),
        Err(BridgeError::UnsupportedConversion)
    ));
}

#[test]
fn deep_clone_to_native_mirrors_the_graph() {
    let mut h = Heap::new();
    let inner = (7i64, false).to_value(&mut h);
    let outer = h.alloc_some(inner);
    match deep_clone_to_native(&h, outer, 10).unwrap() {
        NativeVal::Composite { tag, kids } => {
            assert_eq!(tag, TAG_TUPLE);
            assert_eq!(kids.len(), 1);
            match &kids[0] {
                NativeVal::Composite { tag, kids } => {
                    assert_eq!(*tag, TAG_TUPLE);
                    assert_eq!(kids.len(), 2);
                    assert!(matches!(kids[0], NativeVal::Imm(7)));
                    assert!(matches!(kids[1], NativeVal::Imm(0)));
                },
                other => panic!("unexpected shape: {:?}", other),
            }
        },
        other => panic!("unexpected shape: {:?}", other),
    }
}

#[test]
fn run_loop_dispatches_each_event_and_exits_on_demand() {
    let mut h = Heap::new();
    // the two native events, already marshalled: a resize (a block) and a
    // close request (an immediate)
    let ev1 = WindowEvent::Resized(PhysicalSize { width: 800, height: 600 }).to_value(&mut h);
    let ev2 = WindowEvent::CloseRequested.to_value(&mut h);
    assert!(ev1.is_block());
    assert!(ev2.is_long());
    // a host closure directing Wait after the resize and Exit after the
    // close request
    let wait_v = Directive::Wait.to_value(&mut h);
    let exit_v = Directive::Exit.to_value(&mut h);
    let closure = make_select_closure(&mut h, exit_v, wait_v);

    let events = vec![ev1, ev2];
    let (count, last) = pump_events(&mut h, closure, &events, Directive::Poll).unwrap();
    assert_eq!(count, 2);
    assert_eq!(last, Directive::Exit);
}

#[test]
fn run_loop_stops_at_the_first_exit() {
    let mut h = Heap::new();
    // the host exits on the first immediate-shaped event; the later events
    // are never dispatched
    let ev1 = WindowEvent::CloseRequested.to_value(&mut h);
    let ev2 = WindowEvent::Resized(PhysicalSize { width: 800, height: 600 }).to_value(&mut h);
    let wait_v = Directive::Wait.to_value(&mut h);
    let exit_v = Directive::Exit.to_value(&mut h);
    let closure = make_select_closure(&mut h, exit_v, wait_v);
    let events = vec![ev1, ev2, ev2];
    let (count, last) = pump_events(&mut h, closure, &events, Directive::Poll).unwrap();
    assert_eq!(count, 1);
    assert_eq!(last, Directive::Exit);
}

#[test]
fn run_loop_keeps_pumping_without_exit() {
    let mut h = Heap::new();
    let ev = WindowEvent::CloseRequested.to_value(&mut h);
    let wait_v = Directive::Wait.to_value(&mut h);
    let closure = make_const_closure(&mut h, wait_v);
    let events = vec![ev, ev, ev];
    let (count, last) = pump_events(&mut h, closure, &events, Directive::Poll).unwrap();
    assert_eq!(count, 3);
    assert_eq!(last, Directive::Wait);
}

#[test]
fn dispatch_surfaces_not_callable() {
    let mut h = Heap::new();
    let ev = WindowEvent::CloseRequested.to_value(&mut h);
    let r = dispatch_event(&mut h, Value::of_int(4), ev, Directive::Poll);
    assert_eq!(r, Err(BridgeError::NotCallable));
}

#[test]
fn dispatch_returns_the_directive_the_host_chose() {
    let mut h = Heap::new();
    let ev = WindowEvent::CloseRequested.to_value(&mut h);
    let wu = Directive::WaitUntil(75).to_value(&mut h);
    let closure = make_const_closure(&mut h, wu);
    let r = dispatch_event(&mut h, closure, ev, Directive::Poll);
    assert_eq!(r, Ok(Directive::WaitUntil(75)));
}

#[test]
fn event_loop_is_consumed_exactly_once() {
    let mut rl = RunLoop::new(11);
    assert_eq!(rl.phase, LoopPhase::Idle);
    assert_eq!(rl.start(), Ok(11));
    assert_eq!(rl.phase, LoopPhase::Running);
    // "no event loop": the slot was emptied on first use
    assert_eq!(rl.start(), Err(BridgeError::ResourceUnavailable));
    rl.terminate();
    assert_eq!(rl.phase, LoopPhase::Terminated);
    assert_eq!(rl.start(), Err(BridgeError::ResourceUnavailable));
}

#[test]
fn wait_until_deltas_are_signed_millis() {
    let now = MonoTime { millis: 10_000 };
    let future = MonoTime { millis: 10_050 };
    let past = MonoTime { millis: 9_950 };
    assert_eq!(isize_from_instant(now, future), 50);
    assert_eq!(isize_from_instant(now, past), -50);
    assert_eq!(isize_from_instant(now, now), 0);
    assert_eq!(now_plus_millis(now, 50), future);
}

#[test]
fn val_exn_wraps_the_message_as_a_string_block() {
    let mut h = Heap::new();
    let msg = b"No EventLoop".to_vec();
    let before = h.blocks.len();
    match Val_Exn(&mut h, &msg) {
        BridgeError::HostException(v) => {
            // exactly the one fresh string block was allocated
            assert_eq!(h.blocks.len(), before + 1);
            assert_eq!(h.tag(v), TAG_STRING);
            assert_eq!(h.size(v), msg.len());
            for (i, &x) in msg.iter().enumerate() {
                assert_eq!(h.raw_word(v, i), x as u64);
            }
        },
        other => panic!("unexpected error: {:?}", other),
    }
}

#[test]
fn pump_stops_on_a_host_exception() {
    let mut h = Heap::new();
    let ev = WindowEvent::CloseRequested.to_value(&mut h);
    let msg = b"callback failed".to_vec();
    let exn = h.alloc_bytes(&msg);
    let thrower = re_winit::invoke::make_throw_closure(&mut h, exn);
    let events = vec![ev, ev];
    let r = pump_events(&mut h, thrower, &events, Directive::Poll);
    assert_eq!(r, Err(BridgeError::HostException(exn)));
}

#[test]
fn dispatch_rejects_a_result_that_is_no_directive() {
    let mut h = Heap::new();
    let ev = WindowEvent::CloseRequested.to_value(&mut h);
    // the host hands back the immediate 9, which encodes no directive
    let closure = make_const_closure(&mut h, Value::of_int(9));
    let r = dispatch_event(&mut h, closure, ev, Directive::Wait);
    assert_eq!(r, Err(BridgeError::UnsupportedConversion));
}

#[test]
fn wait_until_round_trips_at_the_range_ends() {
    let mut h = Heap::new();
    assert_eq!(
        round_trip(Directive::WaitUntil(MAX_INT), &mut h),
        Directive::WaitUntil(MAX_INT)
    );
    assert_eq!(
        round_trip(Directive::WaitUntil(MIN_INT), &mut h),
        Directive::WaitUntil(MIN_INT)
    );
}
