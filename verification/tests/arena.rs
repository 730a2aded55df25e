use ref_arena::arena::{Arena, ArenaError};

#[test]
fn insert_then_get_returns_the_value() {
    let mut arena: Arena<String> = Arena::new();
    let h = arena.insert("hello".to_string()).unwrap();
    assert_eq!(arena.get(h).unwrap(), "hello");
}

#[test]
fn handles_carry_index_and_generation() {
    let mut arena: Arena<u32> = Arena::new();
    let h1 = arena.insert(10).unwrap();
    let h2 = arena.insert(20).unwrap();
    assert_eq!(h1.index(), 0);
    assert_eq!(h1.generation(), 1);
    assert_eq!(h2.index(), 1);
    assert_eq!(h2.generation(), 1);
    assert_ne!(h1, h2);
    let copy = h1;
    assert_eq!(copy, h1);
}

#[test]
fn free_then_reuse_bumps_the_generation() {
    // insert "A" -> (0, 1); free; get fails; insert "B" -> (0, 2);
    // the new handle reads "B", the old one stays stale forever.
    let mut arena: Arena<String> = Arena::new();
    let h1 = arena.insert("A".to_string()).unwrap();
    assert_eq!(h1.index(), 0);
    assert_eq!(h1.generation(), 1);
    assert_eq!(arena.free(h1), Ok(()));
    assert_eq!(arena.get(h1), Err(ArenaError::StaleHandle));
    let h2 = arena.insert("B".to_string()).unwrap();
    assert_eq!(h2.index(), 0);
    assert_eq!(h2.generation(), 2);
    assert_eq!(arena.get(h2).unwrap(), "B");
    assert_eq!(arena.get(h1), Err(ArenaError::StaleHandle));
}

#[test]
fn double_free_is_a_harmless_error() {
    let mut arena: Arena<u32> = Arena::new();
    let h = arena.insert(7).unwrap();
    assert_eq!(arena.free(h), Ok(()));
    assert_eq!(arena.free(h), Err(ArenaError::StaleHandle));
    assert_eq!(arena.free(h), Err(ArenaError::StaleHandle));
    // The free list was not corrupted: the slot is reused exactly once,
    // after which fresh inserts go to fresh slots.
    let a = arena.insert(1).unwrap();
    let b = arena.insert(2).unwrap();
    assert_eq!(a.index(), 0);
    assert_eq!(b.index(), 1);
    assert_eq!(arena.get(a).unwrap(), &1);
    assert_eq!(arena.get(b).unwrap(), &2);
}

#[test]
fn free_through_a_copied_handle_already_freed() {
    // Two copies of one handle: freeing through the second after the first
    // freed the slot is a no-op failure.
    let mut arena: Arena<u32> = Arena::new();
    let h = arena.insert(3).unwrap();
    let copy = h;
    assert_eq!(arena.free(h), Ok(()));
    assert_eq!(arena.free(copy), Err(ArenaError::StaleHandle));
}

#[test]
fn get_mut_and_free_fail_on_stale_handles() {
    let mut arena: Arena<u32> = Arena::new();
    let h = arena.insert(1).unwrap();
    arena.free(h).unwrap();
    let h2 = arena.insert(2).unwrap();
    assert_eq!(arena.get(h), Err(ArenaError::StaleHandle));
    assert!(matches!(arena.get_mut(h), Err(ArenaError::StaleHandle)));
    assert_eq!(arena.free(h), Err(ArenaError::StaleHandle));
    assert_eq!(arena.begin_shared(h).unwrap_err(), ArenaError::StaleHandle);
    assert_eq!(arena.begin_exclusive(h).unwrap_err(), ArenaError::StaleHandle);
    assert_eq!(arena.get(h2).unwrap(), &2);
}

#[test]
fn get_mut_writes_through() {
    let mut arena: Arena<String> = Arena::new();
    let h = arena.insert("old".to_string()).unwrap();
    *arena.get_mut(h).unwrap() = "new".to_string();
    assert_eq!(arena.get(h).unwrap(), "new");
}

#[test]
fn shared_borrows_stack_and_block_exclusive() {
    // begin_shared twice succeeds; begin_exclusive fails while they are
    // out; after both releases begin_exclusive succeeds.
    let mut arena: Arena<u32> = Arena::new();
    let h = arena.insert(5).unwrap();
    let t1 = arena.begin_shared(h).unwrap();
    let t2 = arena.begin_shared(h).unwrap();
    assert_eq!(arena.shared_borrows(h.index()), 2);
    assert_eq!(arena.begin_exclusive(h).unwrap_err(), ArenaError::BorrowConflict);
    arena.end_shared(t1);
    assert_eq!(arena.shared_borrows(h.index()), 1);
    assert_eq!(arena.begin_exclusive(h).unwrap_err(), ArenaError::BorrowConflict);
    arena.end_shared(t2);
    assert_eq!(arena.shared_borrows(h.index()), 0);
    assert!(!arena.exclusive_active(h.index()));
    let t3 = arena.begin_exclusive(h).unwrap();
    assert!(arena.exclusive_active(h.index()));
    assert_eq!(arena.get(h), Err(ArenaError::BorrowConflict));
    assert_eq!(arena.begin_shared(h).unwrap_err(), ArenaError::BorrowConflict);
    assert!(matches!(arena.get_mut(h), Err(ArenaError::BorrowConflict)));
    arena.end_exclusive(t3);
    assert_eq!(arena.get(h).unwrap(), &5);
}

#[test]
fn shared_borrow_blocks_get_mut_but_not_get() {
    let mut arena: Arena<u32> = Arena::new();
    let h = arena.insert(9).unwrap();
    let t = arena.begin_shared(h).unwrap();
    assert_eq!(arena.get(h).unwrap(), &9);
    assert!(matches!(arena.get_mut(h), Err(ArenaError::BorrowConflict)));
    arena.end_shared(t);
    assert_eq!(*arena.get_mut(h).unwrap(), 9);
}

#[test]
fn late_release_after_free_leaves_the_arena_intact() {
    // A token released after its slot was freed and reused must not touch
    // the new occupancy's borrow state.
    let mut arena: Arena<u32> = Arena::new();
    let h = arena.insert(1).unwrap();
    let stale_token = arena.begin_shared(h).unwrap();
    arena.free(h).unwrap();
    let h2 = arena.insert(2).unwrap();
    let fresh = arena.begin_shared(h2).unwrap();
    arena.end_shared(stale_token);
    // The fresh shared borrow is still counted: exclusive still conflicts.
    assert_eq!(arena.begin_exclusive(h2).unwrap_err(), ArenaError::BorrowConflict);
    arena.end_shared(fresh);
    let t = arena.begin_exclusive(h2).unwrap();
    arena.end_exclusive(t);
}

#[test]
fn freeing_resets_borrow_state() {
    let mut arena: Arena<u32> = Arena::new();
    let h = arena.insert(4).unwrap();
    let _leaked = arena.begin_exclusive(h).unwrap();
    arena.free(h).unwrap();
    let h2 = arena.insert(8).unwrap();
    // The new occupancy starts with a clean borrow state.
    let t = arena.begin_exclusive(h2).unwrap();
    arena.end_exclusive(t);
    assert_eq!(arena.get(h2).unwrap(), &8);
}

#[test]
fn many_inserts_and_frees_keep_handles_distinct() {
    let mut arena: Arena<usize> = Arena::new();
    let mut handles = Vec::new();
    for i in 0..10 {
        handles.push(arena.insert(i).unwrap());
    }
    for (i, h) in handles.iter().enumerate() {
        assert_eq!(arena.get(*h).unwrap(), &i);
    }
    for h in &handles[..5] {
        arena.free(*h).unwrap();
    }
    let mut new_handles = Vec::new();
    for i in 100..105 {
        new_handles.push(arena.insert(i).unwrap());
    }
    for h in &handles[..5] {
        assert_eq!(arena.get(*h), Err(ArenaError::StaleHandle));
    }
    for (k, h) in new_handles.iter().enumerate() {
        assert_eq!(arena.get(*h).unwrap(), &(100 + k));
    }
    for (i, h) in handles.iter().enumerate().skip(5) {
        assert_eq!(arena.get(*h).unwrap(), &i);
    }
}
