use nail::cursor::HexCursor;

#[test]
fn up_clamps_at_top_and_resets_to_origin() {
    let mut c = HexCursor::new((5, 0));
    c.up();
    assert_eq!(c.pos, (0, 0));
    let mut c = HexCursor::new((5, 2));
    c.up();
    assert_eq!(c.pos, (5, 1));
}

#[test]
fn down_moves_a_row_within_bounds() {
    let mut c = HexCursor::new((4, 0));
    c.down(64);
    assert_eq!(c.pos, (4, 1));
}

#[test]
fn down_clamps_on_exact_multiple_of_sixteen() {
    // 32-byte buffer, cursor on the last row: stepping down lands on the
    // last nibble of the last byte instead of one row past the data.
    let mut c = HexCursor::new((0, 1));
    c.down(32);
    assert_eq!(c.pos, (31, 1));
    assert_eq!(c.loc(), 31);
}

#[test]
fn down_clamps_on_partial_last_row() {
    // 20-byte buffer: byte 4 of row 0 sits below no byte of row 1.
    let mut c = HexCursor::new((8, 0));
    c.down(20);
    assert_eq!(c.loc(), 19);
}

#[test]
fn down_on_empty_buffer_stays_at_origin() {
    let mut c = HexCursor::new((0, 0));
    c.down(0);
    assert_eq!(c.pos, (0, 0));
}

#[test]
fn left_wraps_to_previous_row() {
    let mut c = HexCursor::new((0, 1));
    c.left();
    assert_eq!(c.pos, (31, 0));
    assert_eq!(c.loc(), 15);
}

#[test]
fn left_at_origin_is_pinned() {
    let mut c = HexCursor::new((0, 0));
    c.left();
    assert_eq!(c.pos, (0, 0));
}

#[test]
fn right_stops_at_last_nibble_of_last_byte() {
    // One byte: nibbles 0 and 1 exist; the cursor cannot pass nibble 1.
    let mut c = HexCursor::new((0, 0));
    c.right(1);
    assert_eq!(c.pos, (1, 0));
    c.right(1);
    assert_eq!(c.pos, (1, 0));
}

#[test]
fn right_wraps_to_next_row() {
    let mut c = HexCursor::new((31, 0));
    c.right(64);
    assert_eq!(c.pos, (0, 1));
}

#[test]
fn right_on_empty_buffer_is_a_no_op() {
    let mut c = HexCursor::new((0, 0));
    c.right(0);
    assert_eq!(c.pos, (0, 0));
}

#[test]
fn motion_sequence_never_reaches_one_past_end() {
    // Cursor clamping: an aggressive mix of down and right stays on
    // existing bytes for several buffer sizes.
    for &filesize in &[1usize, 15, 16, 17, 32, 33, 64] {
        let mut c = HexCursor::new((0, 0));
        for step in 0..200 {
            if step % 3 == 0 {
                c.down(filesize);
            } else {
                c.right(filesize);
            }
            assert!(c.loc() <= filesize - 1, "loc {} filesize {}", c.loc(), filesize);
        }
    }
}

#[test]
fn goto_loc_round_trip() {
    for o in 0..100usize {
        let mut c = HexCursor::new((0, 0));
        c.goto(o);
        assert_eq!(c.loc(), o);
    }
}

#[test]
fn next_word_rounds_up_to_word_boundary() {
    let mut c = HexCursor::new((2, 0)); // offset 1
    c.next_word(64);
    assert_eq!(c.loc(), 4);
    let mut c = HexCursor::new((0, 0)); // offset 0, aligned
    c.next_word(64);
    assert_eq!(c.loc(), 4);
}

#[test]
fn next_word_at_last_aligned_offset_clamps_to_last_byte() {
    // 10-byte buffer: the last word-aligned offset is 8; jumping forward
    // clamps to 9 instead of overflowing.
    let mut c = HexCursor::new((16, 0)); // offset 8
    c.next_word(10);
    assert_eq!(c.loc(), 9);
}

#[test]
fn prev_word_steps_back_and_saturates() {
    let mut c = HexCursor::new((12, 0)); // offset 6
    c.prev_word();
    assert_eq!(c.loc(), 4);
    let mut c = HexCursor::new((8, 0)); // offset 4, aligned
    c.prev_word();
    assert_eq!(c.loc(), 0);
    let mut c = HexCursor::new((0, 0));
    c.prev_word();
    assert_eq!(c.loc(), 0);
}

#[test]
fn wrap_symmetry_left_then_right_returns() {
    // From column 0 of a row below the first, left then right cancels.
    let mut c = HexCursor::new((0, 2));
    c.left();
    c.right(64);
    assert_eq!(c.pos, (0, 2));
}
