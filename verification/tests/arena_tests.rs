use grace::arena::{Arena, ArenaBox, Location, SlotState, DEFAULT_ARENA_SLOTS};

fn fresh() -> SlotState {
    SlotState { lock: 0, cap: 64, bitmap: u64::MAX }
}

#[test]
fn zero_slots_means_default() {
    let a = Arena::new(0);
    assert_eq!(a.slot_count(), DEFAULT_ARENA_SLOTS);
    for i in 0..a.slot_count() {
        assert_eq!(a.slot(i), fresh());
    }
}

#[test]
fn search_starts_after_the_random_slot() {
    let mut a = Arena::new(4);
    let b = a.arena_alloc(0, 104, 8);
    assert_eq!(b.location, Location::Block { slot: 1, block: 0 });
    assert_eq!(b.drop_mask, 0b11);
    assert_eq!(b.n_blocks, 2);
    assert_eq!(b.slot, 1);
    assert!(!b.is_heap);
    assert_eq!(a.slot(1), SlotState { lock: 0, cap: 62, bitmap: u64::MAX & !0b11 });
    assert_eq!(a.slot(0), fresh());
}

#[test]
fn random_index_wraps_round_the_slots() {
    let mut a = Arena::new(4);
    let b = a.arena_alloc(7, 16, 8);
    // 7 & 3 == 3, so the search starts at slot 0
    assert_eq!(b.location, Location::Block { slot: 0, block: 0 });
}

#[test]
fn second_allocation_does_not_overlap() {
    let mut a = Arena::new(4);
    let b1 = a.arena_alloc(0, 104, 8);
    let b2 = a.arena_alloc(0, 64, 8);
    assert_eq!(b2.location, Location::Block { slot: 1, block: 2 });
    assert_eq!(b1.drop_mask & b2.drop_mask, 0);
    assert_eq!(a.slot(1).cap, 61);
}

#[test]
fn release_restores_the_slot() {
    let mut a = Arena::new(2);
    let before = a.slot(1);
    let b = a.arena_alloc(0, 304, 8);
    assert_eq!(b.location, Location::Block { slot: 1, block: 0 });
    assert_ne!(a.slot(1), before);
    b.release(&mut a);
    assert_eq!(a.slot(1), before);
}

#[test]
fn large_values_go_to_the_heap() {
    let mut a = Arena::new(2);
    let b = a.arena_alloc(0, 4104, 8);
    assert_eq!(b.location, Location::Heap);
    assert!(b.is_heap);
    assert_eq!(b.n_blocks, 0);
    assert_eq!(b.drop_mask, 0);
    assert_eq!(a.slot(0), fresh());
    assert_eq!(a.slot(1), fresh());
}

#[test]
fn zero_sized_values_take_no_block() {
    let mut a = Arena::new(2);
    let b = a.arena_alloc(0, 0, 1);
    assert_eq!(b.location, Location::Dangling);
    assert!(!b.is_heap);
    assert_eq!(a.slot(1), fresh());
    b.release(&mut a);
    assert_eq!(a.slot(1), fresh());
}

#[test]
fn a_full_slot_value_without_an_empty_slot_goes_to_the_heap() {
    let mut a = Arena::new(2);
    let b1 = a.arena_alloc(0, 64, 8);
    assert_eq!(b1.location, Location::Block { slot: 1, block: 0 });
    let b2 = a.arena_alloc(1, 64, 8);
    assert_eq!(b2.location, Location::Block { slot: 0, block: 0 });
    let before = (a.slot(0), a.slot(1));
    let c = a.arena_alloc(1, 4096, 4096);
    assert_eq!(c.location, Location::Heap);
    assert!(c.is_heap);
    assert_eq!(c.n_blocks, 0);
    // neither slot counted 64 free blocks, so neither was left locked
    assert_eq!((a.slot(0), a.slot(1)), before);
    assert_eq!(a.slot(0).lock, 0);
}

#[test]
fn aligned_request_starts_on_aligned_block() {
    let mut a = Arena::new(1);
    let b1 = a.arena_alloc(0, 64, 8);
    assert_eq!(b1.location, Location::Block { slot: 0, block: 0 });
    let b2 = a.arena_alloc(0, 256, 256);
    assert_eq!(b2.location, Location::Block { slot: 0, block: 4 });
}

#[test]
fn fragmented_slot_is_left_locked_and_value_goes_to_heap() {
    let mut a = Arena::new(1);
    let b1 = a.arena_alloc(0, 2048, 8);
    assert_eq!(b1.location, Location::Block { slot: 0, block: 0 });
    let b2 = a.arena_alloc(0, 64, 8);
    assert_eq!(b2.location, Location::Block { slot: 0, block: 32 });
    b1.release(&mut a);
    assert_eq!(a.slot(0).cap, 63);
    let b3 = a.arena_alloc(0, 40 * 64, 8);
    assert_eq!(b3.location, Location::Heap);
    assert_eq!(a.slot(0).lock, 1);
    let b4 = a.arena_alloc(0, 64, 8);
    assert_eq!(b4.location, Location::Heap);
}

#[test]
fn metadata_round_trip() {
    let mut a = Arena::new(2);
    let b = a.arena_alloc(0, 128, 8);
    let m = b.metadata();
    assert_eq!(m.drop_mask, b.drop_mask);
    assert_eq!(m.n_blocks, 2);
    assert_eq!(m.slot, 1);
    assert!(!m.is_heap);
    let c = ArenaBox::from_raw(b.location, m);
    assert_eq!(c.location, Location::Block { slot: 1, block: 0 });
    assert_eq!(c.metadata(), m);
}

#[test]
fn free_count_matches_free_blocks() {
    let mut a = Arena::new(2);
    let b1 = a.arena_alloc(0, 304, 8);
    let b2 = a.arena_alloc(0, 128, 128);
    let b3 = a.arena_alloc(1, 4000, 8);
    for i in 0..a.slot_count() {
        assert_eq!(a.slot(i).cap as u32, a.slot(i).bitmap.count_ones());
    }
    b2.release(&mut a);
    b1.release(&mut a);
    for i in 0..a.slot_count() {
        assert_eq!(a.slot(i).cap as u32, a.slot(i).bitmap.count_ones());
    }
    b3.release(&mut a);
    assert_eq!(a.slot(0), fresh());
    assert_eq!(a.slot(1), fresh());
}
