use ui_batch::id_pool;
use ui_batch::index_pool;

#[test]
fn id_pool_hands_out_fresh_ids_in_order() {
    let mut pool = id_pool::IDPool::default();
    assert_eq!(pool.fetch_id(), 0);
    assert_eq!(pool.fetch_id(), 1);
    assert_eq!(pool.fetch_id(), 2);
    assert_eq!(pool.used, 3);
}

#[test]
fn id_pool_reuses_returned_ids() {
    let mut pool = id_pool::IDPool::default();
    for _ in 0..5 {
        pool.fetch_id();
    }
    pool.return_id(2);
    assert_eq!(pool.fetch_id(), 2);
    assert_eq!(pool.fetch_id(), 5);
}

#[test]
fn id_pool_merges_adjacent_returns() {
    let mut pool = id_pool::IDPool::default();
    for _ in 0..6 {
        pool.fetch_id();
    }
    // return out of order around a gap, then close the gap
    pool.return_id(1);
    pool.return_id(3);
    assert_eq!(pool.free.len(), 2);
    pool.return_id(2);
    assert_eq!(pool.free.len(), 1);
    assert_eq!((pool.free[0].start, pool.free[0].end), (1, 3));
    pool.return_id(0);
    assert_eq!(pool.free.len(), 1);
    assert_eq!((pool.free[0].start, pool.free[0].end), (0, 3));
    pool.return_id(4);
    assert_eq!(pool.free.len(), 1);
    assert_eq!((pool.free[0].start, pool.free[0].end), (0, 4));
}

#[test]
fn id_pool_fetch_takes_from_the_highest_range() {
    let mut pool = id_pool::IDPool::default();
    for _ in 0..10 {
        pool.fetch_id();
    }
    pool.return_id(1);
    pool.return_id(7);
    pool.return_id(8);
    // ranges are [1,1] and [7,8]; fetch starts at the highest range
    assert_eq!(pool.fetch_id(), 7);
    assert_eq!(pool.fetch_id(), 8);
    assert_eq!(pool.fetch_id(), 1);
    assert_eq!(pool.fetch_id(), 10);
}

#[test]
fn index_pool_hands_out_from_the_top() {
    let mut pool = index_pool::IDPool::new(4);
    assert_eq!(pool.fetch_id(), 3);
    assert_eq!(pool.fetch_id(), 2);
    assert_eq!(pool.fetch_id(), 1);
    assert_eq!(pool.fetch_id(), 0);
    assert_eq!(pool.fetch_id(), u32::MAX);
    assert_eq!(pool.fetch_id(), u32::MAX);
}

#[test]
fn index_pool_returns_make_indices_available_again() {
    let mut pool = index_pool::IDPool::new(4);
    for _ in 0..4 {
        pool.fetch_id();
    }
    pool.return_id(2);
    assert_eq!(pool.fetch_id(), 2);
    assert_eq!(pool.fetch_id(), u32::MAX);
}

#[test]
fn index_pool_merges_adjacent_returns() {
    let mut pool = index_pool::IDPool::new(8);
    for _ in 0..8 {
        pool.fetch_id();
    }
    pool.return_id(5);
    pool.return_id(1);
    assert_eq!(pool.available.len(), 2);
    pool.return_id(2);
    pool.return_id(4);
    assert_eq!(pool.available.len(), 2);
    pool.return_id(3);
    assert_eq!(pool.available.len(), 1);
    assert_eq!((pool.available[0].start, pool.available[0].end), (1, 5));
}
