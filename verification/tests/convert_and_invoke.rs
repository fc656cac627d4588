use re_winit::bridge::Directive;
use re_winit::convert::{round_trip, BridgeError, FromValue, ToValue};
use re_winit::events::Theme;
use re_winit::heap::Heap;
use re_winit::invoke::{
    call, call2, call3, call_n, make_const_closure, make_ident_closure, make_select_closure,
    make_throw_closure,
};
use re_winit::tag::TAG_TUPLE;
use re_winit::value::Value;

#[test]
fn round_trips_for_primitives() {
    let mut h = Heap::new();
    assert_eq!(round_trip(0i64, &mut h), 0);
    assert_eq!(round_trip(-123456789i64, &mut h), -123456789);
    assert_eq!(round_trip(true, &mut h), true);
    assert_eq!(round_trip(false, &mut h), false);
    assert_eq!(round_trip((), &mut h), ());
}

#[test]
fn round_trips_for_composites() {
    let mut h = Heap::new();
    assert_eq!(round_trip(Some(5i64), &mut h), Some(5));
    assert_eq!(round_trip(None::<i64>, &mut h), None);
    assert_eq!(round_trip((3i64, true), &mut h), (3, true));
    assert_eq!(round_trip(Some((Some(-2i64), false)), &mut h), Some((Some(-2), false)));
    assert_eq!(round_trip(Theme::Light, &mut h), Theme::Light);
    assert_eq!(round_trip(Theme::Dark, &mut h), Theme::Dark);
    assert_eq!(round_trip(Directive::Poll, &mut h), Directive::Poll);
    assert_eq!(round_trip(Directive::Wait, &mut h), Directive::Wait);
    assert_eq!(round_trip(Directive::Exit, &mut h), Directive::Exit);
    assert_eq!(round_trip(Directive::WaitUntil(50), &mut h), Directive::WaitUntil(50));
    assert_eq!(round_trip(Directive::WaitUntil(-50), &mut h), Directive::WaitUntil(-50));
}

#[test]
fn option_encoding_matches_the_host_layout() {
    let mut h = Heap::new();
    let n = None::<i64>.to_value(&mut h);
    assert_eq!(n.int_val(), 0);
    let s = Some(41i64).to_value(&mut h);
    assert_eq!(h.tag(s), TAG_TUPLE);
    assert_eq!(h.size(s), 1);
    assert_eq!(h.field(s, 0).int_val(), 41);
}

#[test]
fn from_value_rejects_wrong_shapes() {
    let mut h = Heap::new();
    let v7 = Value::of_int(7);
    assert_eq!(bool::from_value(&h, v7), Err(BridgeError::UnsupportedConversion));
    assert_eq!(<()>::from_value(&h, v7), Err(BridgeError::UnsupportedConversion));
    assert_eq!(Theme::from_value(&h, v7), Err(BridgeError::UnsupportedConversion));
    assert_eq!(Directive::from_value(&h, v7), Err(BridgeError::UnsupportedConversion));
    let pair = (1i64, 2i64).to_value(&mut h);
    assert_eq!(i64::from_value(&h, pair), Err(BridgeError::UnsupportedConversion));
    assert_eq!(Option::<i64>::from_value(&h, pair), Err(BridgeError::UnsupportedConversion));
}

#[test]
fn throwing_closure_round_trips_the_exception() {
    let mut h = Heap::new();
    let msg = b"boom".to_vec();
    let exn = h.alloc_bytes(&msg);
    let thrower = make_throw_closure(&mut h, exn);
    let r = call(&h, thrower, Value::of_int(1));
    // the carried value is the thrown value itself
    assert_eq!(r, Err(BridgeError::HostException(exn)));
    let r2 = call2(&h, thrower, Value::of_int(1), Value::of_int(2));
    assert_eq!(r2, Err(BridgeError::HostException(exn)));
}

#[test]
fn invoking_a_non_closure_is_not_callable_and_allocates_nothing() {
    let mut h = Heap::new();
    let tuple = h.alloc_block(2, TAG_TUPLE);
    let before = h.blocks.len();
    assert_eq!(
        call(&h, Value::of_int(5), Value::unit()),
        Err(BridgeError::NotCallable),
    );
    assert_eq!(call2(&h, tuple, Value::unit(), Value::unit()), Err(BridgeError::NotCallable));
    assert_eq!(
        call3(&h, tuple, Value::unit(), Value::unit(), Value::unit()),
        Err(BridgeError::NotCallable),
    );
    assert_eq!(h.blocks.len(), before);
}

#[test]
fn const_and_ident_closures_return() {
    let mut h = Heap::new();
    let c = make_const_closure(&mut h, Value::of_int(77));
    assert_eq!(call(&h, c, Value::unit()).unwrap().int_val(), 77);
    let id = make_ident_closure(&mut h);
    assert_eq!(call(&h, id, Value::of_int(-9)).unwrap().int_val(), -9);
    let args = vec![Value::of_int(1), Value::of_int(2), Value::of_int(3), Value::of_int(4)];
    assert_eq!(call_n(&h, id, &args).unwrap().int_val(), 1);
}

#[test]
fn select_closure_decides_on_the_argument_shape() {
    let mut h = Heap::new();
    let if_imm = Value::of_int(10);
    let if_block = Value::of_int(20);
    let sel = make_select_closure(&mut h, if_imm, if_block);
    assert_eq!(call(&h, sel, Value::of_int(0)).unwrap().int_val(), 10);
    let blk = h.alloc_block(1, TAG_TUPLE);
    assert_eq!(call(&h, sel, blk).unwrap().int_val(), 20);
}
