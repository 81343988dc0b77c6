use brane_vm::heap::{Heap, HeapError};

#[test]
fn allocates_until_full() {
    let mut heap: Heap<u32> = Heap::new(2);
    let a = heap.allocate(1).unwrap();
    let b = heap.allocate(2).unwrap();
    assert_eq!(*a.get(), 1);
    assert_eq!(*b.get(), 2);
    assert_eq!(heap.len(), 2);
    assert_eq!(heap.allocate(3).err(), Some(HeapError::OutOfMemoryError { capacity: 2 }));
    assert_eq!(heap.capacity(), 2);
}

#[test]
fn shared_handles_point_to_one_object() {
    let mut heap: Heap<u32> = Heap::new(4);
    let a = heap.allocate(7).unwrap();
    let b = a.share();
    let c = heap.allocate(7).unwrap();
    assert!(a.same_object(&b));
    assert!(!a.same_object(&c));
}

#[test]
fn a_slot_no_handle_refers_to_is_reused() {
    let mut heap: Heap<i32> = Heap::new(1);
    let _ = heap.allocate(1);
    let h = heap.allocate(2).unwrap();
    assert_eq!(*h.get(), 2);
    assert_eq!(heap.len(), 1);
    assert_eq!(heap.capacity(), 1);
}

#[test]
fn a_live_object_is_never_evicted() {
    let mut heap: Heap<i32> = Heap::new(1);
    let h1 = heap.allocate(1).unwrap();
    assert_eq!(heap.allocate(2).err(), Some(HeapError::OutOfMemoryError { capacity: 1 }));
    assert_eq!(heap.len(), 1);
    assert_eq!(*h1.get(), 1);
}

#[test]
fn allocation_follows_the_counts() {
    let mut heap: Heap<i32> = Heap::new(4);
    let a = heap.allocate(10).unwrap();
    let b = heap.allocate(20).unwrap();
    let c = heap.allocate(30).unwrap();
    // The first slot whose count is one takes the object; the later free
    // slot is dropped; a slot with more handles stays.
    let h = heap.allocate_with(40, vec![2, 1, 1]).unwrap();
    assert_eq!(*h.get(), 40);
    assert_eq!(heap.len(), 2);
    drop((a, b, c));
    let mut full: Heap<i32> = Heap::new(1);
    let keep = full.allocate(5).unwrap();
    assert!(full.allocate_with(6, vec![2]).is_err());
    assert_eq!(*full.allocate_with(6, vec![1]).unwrap().get(), 6);
    drop(keep);
}
