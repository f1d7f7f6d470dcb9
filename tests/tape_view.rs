use tapedeck::tape_view::TapeSpace;

#[test]
fn overflow() {
    let overflows = [(0, 0), (0, 1), (1, 1), (1, 2), (2, 2), (2, 3), (3, 3), (3, 0)];
    for i in 0..16 {
        let tape_space = TapeSpace::new(27 - i, 0, 1);
        assert_eq!(tape_space.left_overflow, overflows[i % 8].0);
        assert_eq!(tape_space.right_overflow, overflows[i % 8].1);
    }
}

#[test]
fn overflow_unaffected_by_tape_position() {
    for i in 0..16 {
        let tape_space = TapeSpace::new(24, i, 100);
        assert_eq!(tape_space.left_overflow, 1);
        assert_eq!(tape_space.right_overflow, 2);
    }
}

#[test]
fn slots_by_tape_position() {
    let used_slots = [(0, 3), (1, 3), (2, 3), (3, 3), (3, 2), (3, 1), (3, 0)];
    for (i, used_slot) in used_slots.iter().enumerate() {
        let tape_space = TapeSpace::new(27, i, 7);
        assert_eq!(tape_space.used_left_slots, used_slot.0);
        assert_eq!(tape_space.used_right_slots, used_slot.1);
        assert_eq!(tape_space.unused_left_slots, 3 - used_slot.0);
        assert_eq!(tape_space.unused_right_slots, 3 - used_slot.1);
    }
}

#[test]
fn unused_slots_by_width() {
    let unused_slots = [(1, 1), (1, 1), (1, 1), (1, 1), (1, 1), (1, 1), (1, 1), (1, 0), (0, 0)];
    for (i, unused_slot) in unused_slots.iter().enumerate() {
        let tape_space = TapeSpace::new(19 - i, 1, 3);
        assert_eq!(tape_space.used_left_slots, 1);
        assert_eq!(tape_space.used_right_slots, 1);
        assert_eq!(tape_space.unused_left_slots, unused_slot.0);
        assert_eq!(tape_space.unused_right_slots, unused_slot.1);
    }
}

#[test]
fn narrowest_view_has_no_slots() {
    let tape_space = TapeSpace::new(3, 0, 1);
    assert_eq!(tape_space.used_left_slots, 0);
    assert_eq!(tape_space.unused_left_slots, 0);
    assert_eq!(tape_space.left_overflow, 0);
    assert_eq!(tape_space.used_right_slots, 0);
    assert_eq!(tape_space.unused_right_slots, 0);
    assert_eq!(tape_space.right_overflow, 0);
}

#[test]
fn slots_round_up_partial_cells() {
    // 9 columns beside the cell: 5 on the left, 4 on the right
    let tape_space = TapeSpace::new(12, 5, 10);
    assert_eq!(tape_space.used_left_slots, 2);
    assert_eq!(tape_space.left_overflow, 3);
    assert_eq!(tape_space.used_right_slots, 1);
    assert_eq!(tape_space.right_overflow, 0);
}
