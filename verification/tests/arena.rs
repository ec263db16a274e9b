use corepy_runtime::arena::{arena_stats, with_arena, ThreadArena, DEFAULT_ARENA_SIZE};

#[test]
fn test_arena_basic_allocation() {
    let mut arena = ThreadArena::new(1024);

    let o1 = arena.alloc_elems(10, 4, 4).expect("allocation failed");
    let o2 = arena.alloc_elems(10, 4, 4).expect("allocation failed");
    assert_ne!(o1, o2);
    assert!(o2 >= o1 + 40);
}

#[test]
fn test_arena_exhaustion() {
    let mut arena = ThreadArena::new(100);

    // Allocate almost all space
    let _o1 = arena.alloc_elems(90, 1, 1).expect("allocation failed");

    // This should fail
    let o2 = arena.alloc_elems(20, 1, 1);
    assert!(o2.is_none());
}

#[test]
fn test_arena_reset() {
    let mut arena = ThreadArena::new(1024);

    let _o1 = arena.alloc_elems(100, 4, 4).expect("allocation failed");
    assert!(arena.used_bytes() > 0);

    arena.reset();
    assert_eq!(arena.used_bytes(), 0);

    // Should be able to allocate again
    let _o2 = arena.alloc_elems(100, 4, 4).expect("allocation failed");
}

#[test]
fn test_with_arena() {
    let arena = ThreadArena::with_default_size();
    let (arena, result) = with_arena(arena, |mut a| {
        let _offset = a.alloc_elems(10, 4, 4).expect("allocation failed");
        (a, 42)
    });

    assert_eq!(result, 42);

    // Arena should be reset
    let (used, _, _) = arena_stats(&arena);
    assert_eq!(used, 0);
}

#[test]
fn arena_alignment_and_disjointness() {
    let mut arena = ThreadArena::new(64);
    let o1 = arena.alloc_bytes(1, 1).expect("allocation failed");
    assert_eq!(o1, 0);
    // The cursor stands at 1; an 8-aligned request lands on 8.
    let o2 = arena.alloc_bytes(4, 8).expect("allocation failed");
    assert_eq!(o2, 8);
    assert_eq!(o2 % 8, 0);
    assert!(o2 >= o1 + 1);
    assert_eq!(arena.used_bytes(), 12);
}

#[test]
fn arena_no_space_then_reset_restores_capacity() {
    let mut arena = ThreadArena::new(8);
    assert_eq!(arena.alloc_bytes(8, 1), Some(0));
    // Capacity consumed: any further byte is refused.
    assert_eq!(arena.alloc_bytes(1, 1), None);
    assert_eq!(arena.used_bytes(), 8);
    arena.reset();
    // Immediately after reset the whole capacity fits again.
    assert_eq!(arena.alloc_bytes(8, 1), Some(0));
}

#[test]
fn arena_capacity_is_fixed() {
    let arena = ThreadArena::new(256);
    assert_eq!(arena.capacity(), 256);
    assert_eq!(arena.available_bytes(), 256);
    let default_arena = ThreadArena::with_default_size();
    assert_eq!(default_arena.capacity(), DEFAULT_ARENA_SIZE);
}
