use nail::cursor::HexCursor;
use nail::file::File;
use nail::text::{pop_char, push_char, trim_chars};
use nail::tilde::tilde_expand_with;

fn file_with(data: Vec<u8>, scroll_y: usize) -> File {
    File {
        name: "demo.bin".to_string(),
        path: "dir/demo.bin".to_string(),
        data,
        cursor: HexCursor::new((0, 0)),
        scroll_y,
    }
}

#[test]
fn hex_view_row_text_is_exact() {
    let f = file_with(vec![0x48, 0x45, 0x4C, 0x4C, 0x4F], 0);
    let rows = f.hex_view(10);
    assert_eq!(rows.len(), 1);
    assert_eq!(rows[0].offset_text, "00000000 ");
    assert_eq!(
        rows[0].hex_text,
        "48 45 4C 4C 4F                                 ",
    );
    assert_eq!(rows[0].hex_text.len(), 47);
    assert_eq!(rows[0].ascii_text, "HELLO");
}

#[test]
fn hex_view_full_row_is_47_columns_wide() {
    let f = file_with((0u8..16).collect(), 0);
    let rows = f.hex_view(10);
    assert_eq!(rows.len(), 1);
    assert_eq!(
        rows[0].hex_text,
        "00 01 02 03 04 05 06 07 08 09 0A 0B 0C 0D 0E 0F",
    );
}

#[test]
fn hex_view_nonprintable_bytes_show_as_dots() {
    let f = file_with(vec![0x00, 0x1F, 0x20, 0x7E, 0x7F, 0x80, 0xA0, 0xA1], 0);
    let rows = f.hex_view(10);
    assert_eq!(rows[0].ascii_text, ".. ~...\u{a1}");
}

#[test]
fn hex_view_starts_at_scroll_offset_and_respects_line_count() {
    let f = file_with(vec![0xAB; 64], 16);
    let rows = f.hex_view(2);
    assert_eq!(rows.len(), 2);
    assert_eq!(rows[0].offset_text, "00000010 ");
    assert_eq!(rows[1].offset_text, "00000020 ");
}

#[test]
fn hex_view_scrolled_past_end_is_empty() {
    let f = file_with(vec![1, 2, 3], 16);
    assert_eq!(f.hex_view(5).len(), 0);
}

#[test]
fn replace_overwrites_one_nibble_and_steps_right() {
    let mut f = file_with(vec![0xAB, 0xCD], 0);
    f.replace_at_cursor(0xF);
    assert_eq!(f.data, vec![0xFB, 0xCD]);
    assert_eq!(f.cursor.pos, (1, 0));
    f.replace_at_cursor(0x0);
    assert_eq!(f.data, vec![0xF0, 0xCD]);
    assert_eq!(f.cursor.pos, (2, 0));
}

#[test]
fn replace_on_empty_buffer_is_a_no_op() {
    let mut f = file_with(vec![], 0);
    f.replace_at_cursor(0xF);
    assert_eq!(f.data.len(), 0);
    assert_eq!(f.cursor.pos, (0, 0));
}

#[test]
fn update_scroll_keeps_cursor_row_visible() {
    // Cursor above the window: the window is pulled up to its row.
    let mut f = file_with(vec![0u8; 256], 64);
    f.cursor = HexCursor::new((0, 1));
    f.update_scroll(4);
    assert_eq!(f.scroll_y, 16);
    // Cursor below the window: its row becomes the last visible one.
    let mut f = file_with(vec![0u8; 256], 0);
    f.cursor = HexCursor::new((0, 9));
    f.update_scroll(4);
    assert_eq!(f.scroll_y, (9 + 1 - 4) * 16);
    // Cursor already visible: nothing moves.
    let mut f = file_with(vec![0u8; 256], 16);
    f.cursor = HexCursor::new((0, 2));
    f.update_scroll(4);
    assert_eq!(f.scroll_y, 16);
}

#[test]
fn offset_labels_pad_to_eight_digits_and_grow_beyond() {
    let eight: String = nail::hexfmt::hex_chars(0x1A, 8).into_iter().collect();
    assert_eq!(eight, "0000001A");
    let grown: String = nail::hexfmt::hex_chars(0x1_0000_0000, 8).into_iter().collect();
    assert_eq!(grown, "100000000");
    let byte: String = nail::hexfmt::hex_chars(0x0F, 2).into_iter().collect();
    assert_eq!(byte, "0F");
}

#[test]
fn trim_removes_ascii_whitespace_at_both_ends() {
    let v: Vec<char> = "  :bd \t\n".chars().collect();
    let t: String = trim_chars(&v).into_iter().collect();
    assert_eq!(t, ":bd");
    let v: Vec<char> = "   ".chars().collect();
    assert_eq!(trim_chars(&v).len(), 0);
}

#[test]
fn push_and_pop_char_edit_the_end() {
    let mut s = ":".to_string();
    push_char(&mut s, 'w');
    assert_eq!(s, ":w");
    assert_eq!(pop_char(&mut s), Some('w'));
    assert_eq!(pop_char(&mut s), Some(':'));
    assert_eq!(pop_char(&mut s), None);
    assert_eq!(s, "");
}

#[test]
fn tilde_expansion_against_explicit_home() {
    assert_eq!(
        tilde_expand_with("~/notes.txt", Some("/home/me")),
        Some("/home/me/notes.txt".to_string()),
    );
    assert_eq!(tilde_expand_with("~", Some("/home/me")), Some("/home/me".to_string()));
    assert_eq!(tilde_expand_with("~", None), None);
    assert_eq!(tilde_expand_with("plain.bin", None), Some("plain.bin".to_string()));
    assert_eq!(tilde_expand_with("", None), Some("".to_string()));
}
