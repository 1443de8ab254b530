use std::cell::Cell;
use std::rc::Rc;

use ccommon_rs::pool::{BufCallbacksBuilder, Pool, PoolConfig};

#[test]
fn test_prealloc_and_alloc_and_new() {
    let obj_size = 5;
    let nmax = 10;
    let counter = Rc::new(Cell::new(0));

    let c2 = counter.clone();

    let cfg = PoolConfig {
        obj_size,
        nmax,
        callbacks: BufCallbacksBuilder::new()
            .init_fn(|b| b[0] = 1u8)
            .destroy_fn(move |_| c2.set(c2.get() + 1))
            .build()
            .unwrap(),
    };
    let mut p = Pool::new(cfg);

    assert_eq!(p.nused(), 0);
    assert_eq!(p.nmax(), 10);
    assert_eq!(p.nfree(), 0);

    p.prealloc(3);
    assert_eq!(p.nfree(), 3);

    // make sure the callback was called
    let mut taken = Vec::new();
    for _ in 0..3 {
        let b = p.take().unwrap();
        assert_eq!(b.len(), obj_size);
        assert_eq!(b[0], 1u8);
        taken.push(b);
    }
    for b in taken {
        p.put(b);
    }

    // the pool has no destructor of its own; shrinking frees the unused
    // buffers and runs the teardown callback on each
    p.shrink_to_fit();
    assert_eq!(counter.get(), 3);
}

#[test]
fn test_borrow_and_unborrow() {
    let obj_size = 5;
    let nmax = 2;
    let cfg = PoolConfig {
        obj_size,
        nmax,
        callbacks: BufCallbacksBuilder::new()
            .init_fn(|b| b[0] = 1u8)
            .destroy_fn(|b| b[0] = 2u8)
            .build()
            .unwrap(),
    };
    let mut p = Pool::new(cfg);

    p.prealloc(1);

    let a = p.take().unwrap();
    let b = p.take().unwrap(); // this should allocate because we're still under nmax
    assert_eq!(p.nused(), 2);
    assert!(p.take().is_none()); // sorry we're full

    p.put(a);
    assert_eq!(p.nused(), 1);
    p.put(b);
    assert_eq!(p.nfree(), 2);
    assert_eq!(p.nused(), 0);
}

#[test]
fn test_reset_callback_runs_on_put() {
    let cfg = PoolConfig {
        obj_size: 4,
        nmax: 0,
        callbacks: BufCallbacksBuilder::new()
            .init_fn(|b| b[0] = 7u8)
            .reset_fn(|b| b[0] = 9u8)
            .build()
            .unwrap(),
    };
    let mut p = Pool::new(cfg);

    let a = p.take().unwrap();
    assert_eq!(a[0], 7u8);
    p.put(a);
    let again = p.take().unwrap();
    assert_eq!(again[0], 9u8);
    assert_eq!(again.len(), 4);
}

#[test]
fn test_unbounded_pool_always_allocates() {
    let cfg = PoolConfig {
        obj_size: 3,
        nmax: 0,
        callbacks: BufCallbacksBuilder::new().build().unwrap(),
    };
    let mut p = Pool::new(cfg);

    let mut taken = Vec::new();
    for _ in 0..5 {
        let b = p.take().unwrap();
        assert_eq!(b.len(), 3);
        assert_eq!(b, vec![0u8, 0u8, 0u8]);
        taken.push(b);
    }
    assert_eq!(p.nused(), 5);
    assert_eq!(p.nfree(), 0);
}

#[test]
fn test_default_builder_has_no_callbacks() {
    let cfg = PoolConfig {
        obj_size: 2,
        nmax: 1,
        callbacks: BufCallbacksBuilder::default().build().unwrap(),
    };
    let mut p = Pool::new(cfg);
    let b = p.take().unwrap();
    assert_eq!(b, vec![0u8, 0u8]);
    p.put(b);
    p.shrink_to_fit();
    assert_eq!(p.nfree(), 0);
    assert_eq!(p.nused(), 0);
}
