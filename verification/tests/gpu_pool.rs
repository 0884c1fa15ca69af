use boom::gpu::pool::GpuPool;

#[test]
fn test_pool_creation() {
    let pool = GpuPool::new(&[0]).unwrap();
    assert_eq!(pool.len(), 1);
    assert!(!pool.is_empty());
    assert_eq!(pool.device_ids(), vec![0]);
}

#[test]
fn test_pool_multi_device() {
    let pool = GpuPool::new(&[0, 1, 2, 3]).unwrap();
    assert_eq!(pool.len(), 4);
    assert_eq!(pool.device_ids(), vec![0, 1, 2, 3]);
}

#[test]
fn test_pool_empty_fails() {
    assert!(GpuPool::new(&[]).is_err());
}

#[test]
fn an_empty_pool_says_what_is_missing() {
    assert_eq!(GpuPool::new(&[]).unwrap_err(), "GpuPool requires at least one device ID");
}

#[test]
fn test_acquire_returns_device() {
    let mut pool = GpuPool::new(&[5]).unwrap();
    let guard = pool.acquire();
    assert_eq!(guard.context.device_id, 5);
}

#[test]
fn test_acquire_least_contended() {
    let mut pool = GpuPool::new(&[0, 1]).unwrap();

    // Hold device: the next acquire should pick the other one
    let guard1 = pool.acquire();
    let id1 = guard1.context.device_id;

    let guard2 = pool.acquire();
    let id2 = guard2.context.device_id;

    // With 2 devices, they should be different
    assert_ne!(id1, id2);
}

#[test]
fn test_active_count_decrements_on_drop() {
    let mut pool = GpuPool::new(&[0]).unwrap();

    {
        let guard = pool.acquire();
        assert_eq!(pool.devices[0].active_count, 1);
        pool.release(guard);
    }
    // Guard given back
    assert_eq!(pool.devices[0].active_count, 0);
}

#[test]
fn every_device_is_handed_out_once_before_any_twice() {
    let mut pool = GpuPool::new(&[7, 8, 9]).unwrap();
    let mut ids = vec![];
    for _ in 0..6 {
        ids.push(pool.acquire().context.device_id);
    }
    assert_eq!(ids, vec![7, 8, 9, 7, 8, 9]);
}

#[test]
fn a_released_device_is_the_next_one_out() {
    let mut pool = GpuPool::new(&[7, 8, 9]).unwrap();
    let _a = pool.acquire();
    let b = pool.acquire();
    let _c = pool.acquire();
    pool.release(b);
    assert_eq!(pool.acquire().context.device_id, 8);
}
