use re_winit::heap::Heap;
use re_winit::names::NamedRegistry;
use re_winit::tag::{TAG_ABSTRACT, TAG_CLOSURE, TAG_STRING, TAG_TUPLE};
use re_winit::value::Value;

#[test]
fn immediate_encoding_round_trips() {
    for n in [0i64, 1, -1, 42, -42, 1 << 40, -(1 << 40), re_winit::value::MAX_INT, re_winit::value::MIN_INT] {
        let v = Value::of_int(n);
        assert!(v.is_long());
        assert!(!v.is_block());
        assert_eq!(v.int_val(), n);
    }
}

#[test]
fn immediate_bit_layout() {
    // n is stored as 2 * n + 1: the documented bit-exact encoding.
    assert_eq!(Value::of_int(0).word, 1);
    assert_eq!(Value::of_int(5).word, 11);
    assert_eq!(Value::unit().word, 1);
    assert_eq!(Value::of_bool(false).int_val(), 0);
    assert_eq!(Value::of_bool(true).int_val(), 1);
    assert_eq!(Value::none().int_val(), 0);
}

#[test]
fn block_versus_long_is_exclusive() {
    let mut h = Heap::new();
    let b = h.alloc_block(2, TAG_TUPLE);
    assert!(b.is_block() && !b.is_long());
    let i = Value::of_int(7);
    assert!(i.is_long() && !i.is_block());
}

#[test]
fn tag_is_guarded_on_immediates() {
    let mut h = Heap::new();
    let b = h.alloc_block(1, TAG_CLOSURE);
    assert_eq!(h.tag_checked(b), Some(TAG_CLOSURE));
    // Asking for the tag of an immediate is rejected, not undefined.
    assert_eq!(h.tag_checked(Value::of_int(3)), None);
    // A reference beyond the heap is rejected too.
    assert_eq!(h.tag_checked(Value::of_block_index(999)), None);
}

#[test]
fn exception_sentinel_carries_block() {
    let mut h = Heap::new();
    let b = h.alloc_block(1, TAG_TUPLE);
    let s = b.make_exception_result();
    assert!(s.is_exception_result());
    assert!(!Value::of_int(9).is_exception_result());
    assert!(!b.is_exception_result());
    assert_eq!(s.extract_exception(), b);
}

#[test]
fn fields_read_back_through_the_barrier() {
    let mut h = Heap::new();
    let b = h.alloc_block(2, TAG_TUPLE);
    // freshly allocated scanned blocks are unit-initialized
    assert_eq!(h.field(b, 0).int_val(), 0);
    assert_eq!(h.field(b, 1).int_val(), 0);
    h.store_field(b, 0, Value::of_int(10));
    h.store_field(b, 1, Value::of_int(-3));
    assert_eq!(h.field(b, 0).int_val(), 10);
    assert_eq!(h.field(b, 1).int_val(), -3);
    assert_eq!(h.size(b), 2);
    assert_eq!(h.tag(b), TAG_TUPLE);
}

#[test]
fn small_allocation_same_shape() {
    let mut h = Heap::new();
    let b = h.alloc_small(3, TAG_TUPLE);
    assert_eq!(h.size(b), 3);
    assert_eq!(h.tag_checked(b), Some(TAG_TUPLE));
}

#[test]
fn abstract_blocks_hold_a_token() {
    let mut h = Heap::new();
    let b = h.alloc_abstract(0xdead_beef);
    assert_eq!(h.tag(b), TAG_ABSTRACT);
    assert_eq!(h.raw_word(b, 0), 0xdead_beef);
}

#[test]
fn byte_blocks_hold_the_bytes() {
    let mut h = Heap::new();
    let bytes = b"hello".to_vec();
    let b = h.alloc_bytes(&bytes);
    assert_eq!(h.tag(b), TAG_STRING);
    assert_eq!(h.size(b), 5);
    for (i, &x) in bytes.iter().enumerate() {
        assert_eq!(h.raw_word(b, i), x as u64);
    }
}

#[test]
fn some_allocates_one_field_block() {
    let mut h = Heap::new();
    let s = h.alloc_some(Value::of_int(33));
    assert_eq!(h.tag(s), TAG_TUPLE);
    assert_eq!(h.size(s), 1);
    assert_eq!(h.field(s, 0).int_val(), 33);
}

#[test]
fn roots_register_and_remove() {
    let mut h = Heap::new();
    let b = h.alloc_block(1, TAG_TUPLE);
    assert!(!h.is_rooted(b));
    h.register_global_root(b);
    assert!(h.is_rooted(b));
    let c = h.alloc_block(1, TAG_TUPLE);
    h.register_global_root(c);
    h.remove_global_root(b);
    assert!(!h.is_rooted(b));
    assert!(h.is_rooted(c));
}

#[test]
fn named_lookup_finds_registered_values() {
    let mut reg = NamedRegistry::new();
    assert_eq!(reg.lookup(&b"main".to_vec()), None);
    reg.register(b"main".to_vec(), Value::of_int(1));
    reg.register(b"on_event".to_vec(), Value::of_int(2));
    assert_eq!(reg.lookup(&b"main".to_vec()), Some(Value::of_int(1)));
    assert_eq!(reg.lookup(&b"on_event".to_vec()), Some(Value::of_int(2)));
    assert_eq!(reg.lookup(&b"absent".to_vec()), None);
    // a later registration shadows the earlier binding
    reg.register(b"main".to_vec(), Value::of_int(3));
    assert_eq!(reg.lookup(&b"main".to_vec()), Some(Value::of_int(3)));
}
