use urcu::common::utils::{barrier, load_shared, store_shared};

#[test]
fn load_shared_reads_value() {
    let x: usize = 42;
    assert_eq!(load_shared(&x), 42);
    let y: (i32, bool) = (-3, true);
    assert_eq!(load_shared(&y), (-3, true));
}

#[test]
fn store_shared_writes_value() {
    let mut x: usize = 1;
    store_shared(&mut x, 0x1001);
    assert_eq!(x, 0x1001);
}

#[test]
fn barrier_returns() {
    barrier();
}
