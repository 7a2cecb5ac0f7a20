use ui_batch::arena::{BufferArena, BUFFER_CAPACITY_LIMIT};
use ui_batch::rect::Rect;
use ui_batch::ui::UiError;

fn rect(min_x: i32, min_y: i32, max_x: i32, max_y: i32) -> Rect {
    Rect { min_x, min_y, max_x, max_y }
}

#[test]
fn rect_zero_and_size() {
    let z = Rect::zero();
    assert_eq!(z, rect(0, 0, 0, 0));
    assert_eq!(rect(10, 20, 30, 60).size(), (20, 40));
    assert_eq!(rect(10, 20, 5, 15).size(), (-5, -5));
}

#[test]
fn rect_intersect() {
    let a = rect(0, 0, 10, 10);
    assert!(a.intersect(&rect(5, 5, 15, 15)));
    assert!(!a.intersect(&rect(10, 0, 20, 10)));
    assert!(!a.intersect(&rect(0, 10, 10, 20)));
    assert!(a.intersect(&a));
}

#[test]
fn rect_combine() {
    let a = rect(0, 5, 10, 10);
    let b = rect(3, 0, 15, 8);
    assert_eq!(a.combine(&b), rect(0, 0, 15, 10));
    assert_eq!(b.combine(&a), rect(0, 0, 15, 10));
}

#[test]
fn arena_hands_out_contiguous_offsets() {
    let mut arena = BufferArena::new(1024);
    assert_eq!(arena.request(112), Ok(0));
    assert_eq!(arena.request(112), Ok(112));
    assert_eq!(arena.request(112), Ok(224));
    assert_eq!(arena.cursor, 336);
    assert_eq!(arena.buffer.unwrap().capacity, 1024);
    assert_eq!(arena.buffer.unwrap().generation, 1);
}

#[test]
fn arena_growth_doubles_and_restarts_at_zero() {
    let mut arena = BufferArena::new(1024);
    for _ in 0..9 {
        arena.request(112).unwrap();
    }
    assert_eq!(arena.cursor, 1008);
    // 16 bytes left: the next quad-sized request grows the buffer
    assert_eq!(arena.request(112), Ok(0));
    let grown = arena.buffer.unwrap();
    assert_eq!(grown.capacity, 2048);
    assert_eq!(grown.generation, 2);
    assert_eq!(arena.cursor, 112);
}

#[test]
fn arena_reset_keeps_the_buffer() {
    let mut arena = BufferArena::new(1024);
    arena.request(1000).unwrap();
    let handle = arena.buffer.unwrap();
    arena.reset();
    assert_eq!(arena.cursor, 0);
    assert_eq!(arena.buffer.unwrap(), handle);
}

#[test]
fn arena_growth_past_the_device_limit_fails() {
    let mut arena = BufferArena::new(1024);
    // fill every doubling up to the capacity limit
    loop {
        match arena.request(1024) {
            Ok(_) => (),
            Err(e) => {
                assert_eq!(e, UiError::AllocationFailure);
                break;
            },
        }
    }
    let last = arena.buffer.unwrap();
    assert_eq!(last.capacity, BUFFER_CAPACITY_LIMIT);
    assert_eq!(arena.cursor, last.capacity);
}
