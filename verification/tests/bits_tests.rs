use grace::bits::find_blocks;

#[test]
fn full_slot_single_block_at_zero() {
    assert_eq!(find_blocks(u64::MAX, 1, 8), Some(0));
}

#[test]
fn run_of_two_found_after_taken_block() {
    assert_eq!(find_blocks(0b1110, 2, 8), Some(1));
}

#[test]
fn empty_bitmap_has_no_room() {
    assert_eq!(find_blocks(0, 1, 8), None);
}

#[test]
fn run_of_four_in_upper_nibble() {
    assert_eq!(find_blocks(0xF0, 4, 8), Some(4));
}

#[test]
fn highest_block_alone() {
    assert_eq!(find_blocks(0x8000_0000_0000_0000, 1, 8), Some(63));
}

#[test]
fn alignment_of_two_blocks_skips_odd_start() {
    assert_eq!(find_blocks(u64::MAX << 1, 2, 128), Some(2));
}

#[test]
fn alignment_of_four_blocks() {
    assert_eq!(find_blocks(0xF0, 4, 256), Some(4));
    assert_eq!(find_blocks(0x1E, 2, 256), None);
}

#[test]
fn whole_slot_alignment_without_a_run_gives_none() {
    assert_eq!(find_blocks(0x5555_5555_5555_5555, 2, 4096), None);
    assert_eq!(find_blocks(0, 3, 8192), None);
}

#[test]
fn sixty_four_blocks_take_block_zero_unseen() {
    assert_eq!(find_blocks(u64::MAX, 64, 4096), Some(0));
    // the free count checked by the caller decides; the map is not read
    assert_eq!(find_blocks(u64::MAX - 1, 64, 8), Some(0));
}

#[test]
fn more_than_a_slot_never_fits() {
    assert_eq!(find_blocks(u64::MAX, 65, 8), None);
}

#[test]
fn lowest_of_several_runs() {
    // free runs at 8..12 and 20..30
    let map: u64 = (0xF << 8) | (0x3FF << 20);
    assert_eq!(find_blocks(map, 3, 8), Some(8));
    assert_eq!(find_blocks(map, 5, 8), Some(20));
}
