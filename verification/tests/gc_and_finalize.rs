use std::cell::Cell;
use std::rc::Rc;

use re_winit::finalize::{alloc_final, collect_and_finalize, FinalStore};
use re_winit::heap::Heap;
use re_winit::tag::TAG_TUPLE;
use re_winit::value::Value;

/// A stand-in for a native resource whose destructor we count.
struct NativeRes {
    counter: Rc<Cell<u32>>,
}

impl Drop for NativeRes {
    fn drop(&mut self) {
        self.counter.set(self.counter.get() + 1);
    }
}

#[test]
fn rooted_values_survive_collection() {
    let mut h = Heap::new();
    let inner = h.alloc_block(1, TAG_TUPLE);
    h.store_field(inner, 0, Value::of_int(99));
    let outer = h.alloc_block(2, TAG_TUPLE);
    h.store_field(outer, 0, inner);
    h.store_field(outer, 1, Value::of_int(7));
    let garbage = h.alloc_block(1, TAG_TUPLE);
    h.register_global_root(outer);

    let freed = h.collect();
    assert!(freed.is_empty());

    // the rooted block and everything it references survive intact,
    // unmoved
    assert_eq!(h.tag_checked(outer), Some(TAG_TUPLE));
    assert_eq!(h.field(outer, 1).int_val(), 7);
    let inner2 = h.field(outer, 0);
    assert_eq!(inner2, inner);
    assert_eq!(h.field(inner2, 0).int_val(), 99);
    // the unreferenced block is gone
    assert_eq!(h.tag_checked(garbage), None);
}

#[test]
fn removed_root_is_no_longer_scanned() {
    let mut h = Heap::new();
    let b = h.alloc_block(1, TAG_TUPLE);
    h.register_global_root(b);
    h.collect();
    assert_eq!(h.tag_checked(b), Some(TAG_TUPLE));
    h.remove_global_root(b);
    h.collect();
    assert_eq!(h.tag_checked(b), None);
}

#[test]
fn finalizers_run_exactly_once() {
    let mut h = Heap::new();
    let mut store: FinalStore<NativeRes> = FinalStore::new();
    let drops = Rc::new(Cell::new(0));

    let p1 = alloc_final(&mut h, &mut store, NativeRes { counter: drops.clone() }, 1, 4);
    let _p2 = alloc_final(&mut h, &mut store, NativeRes { counter: drops.clone() }, 1, 4);
    let _p3 = alloc_final(&mut h, &mut store, NativeRes { counter: drops.clone() }, 1, 4);
    h.register_global_root(p1);

    // two pointers are unreachable: their destructors run, once each
    let ids = collect_and_finalize(&mut h, &mut store);
    assert_eq!(ids.len(), 2);
    assert_eq!(drops.get(), 2);

    // a second collection finds nothing more to finalize
    let ids2 = collect_and_finalize(&mut h, &mut store);
    assert!(ids2.is_empty());
    assert_eq!(drops.get(), 2);

    // dropping the last reference releases the last resource, exactly once
    h.remove_global_root(p1);
    let ids3 = collect_and_finalize(&mut h, &mut store);
    assert_eq!(ids3.len(), 1);
    assert_eq!(drops.get(), 3);
    let ids4 = collect_and_finalize(&mut h, &mut store);
    assert!(ids4.is_empty());
    assert_eq!(drops.get(), 3);
}

#[test]
fn store_hands_each_value_out_once() {
    let mut store: FinalStore<String> = FinalStore::new();
    let id = store.put("window".to_string());
    assert_eq!(store.get(id).map(|s| s.as_str()), Some("window"));
    assert_eq!(store.take(id), Some("window".to_string()));
    assert_eq!(store.take(id), None);
    assert!(store.get(id).is_none());
}

#[test]
fn collection_follows_chains_from_roots() {
    let mut h = Heap::new();
    // a chain a -> b -> c, rooted at a; d dangling off nothing
    let c = h.alloc_block(1, TAG_TUPLE);
    let b = h.alloc_block(1, TAG_TUPLE);
    let a = h.alloc_block(1, TAG_TUPLE);
    h.store_field(b, 0, c);
    h.store_field(a, 0, b);
    let d = h.alloc_block(1, TAG_TUPLE);
    h.register_global_root(a);
    h.collect();
    assert!(h.tag_checked(a).is_some());
    assert!(h.tag_checked(b).is_some());
    assert!(h.tag_checked(c).is_some());
    assert!(h.tag_checked(d).is_none());
}

#[test]
fn pressure_hints_accumulate_and_reset() {
    let mut h = Heap::new();
    let mut store: FinalStore<u32> = FinalStore::new();
    assert_eq!((store.pressure_used, store.pressure_max), (0, 0));
    alloc_final(&mut h, &mut store, 1, 0, 1);
    alloc_final(&mut h, &mut store, 2, 3, 8);
    assert_eq!((store.pressure_used, store.pressure_max), (3, 9));
    collect_and_finalize(&mut h, &mut store);
    assert_eq!((store.pressure_used, store.pressure_max), (0, 0));
}
