use heapless::FixedVec;

#[test]
fn static_uninit() {
    // a one-slot buffer stands for a cell whose initialization is
    // deferred until the first write
    let mut slot: FixedVec<i32, 1> = FixedVec::new();
    slot.push(42).unwrap();
    assert_eq!(slot.as_slice()[0], 42);
}

#[test]
fn static_new_manually_drop() {
    let m = core::mem::ManuallyDrop::new(42);
    assert_eq!(*m, 42);
    // drop before deinitialization
    let _inner = core::mem::ManuallyDrop::into_inner(m);
}
