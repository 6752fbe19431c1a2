use anyrouter::text_input::TextInput;

fn field(text: &str) -> TextInput {
    TextInput::new("placeholder", text, false)
}

#[test]
fn new_field_puts_cursor_at_end() {
    let t = field("héllo");
    assert_eq!(t.text(), "héllo");
    assert_eq!(t.selected_range, 6..6);
    assert!(!t.selection_reversed);
    assert_eq!(t.marked_range, None);
    assert_eq!(t.rows, 1);
    let m = TextInput::new_multiline("p", "", 1);
    assert!(m.multiline);
    assert_eq!(m.rows, 2);
    assert_eq!(TextInput::new_multiline("p", "", 5).rows, 5);
}

#[test]
fn utf16_offsets_convert_both_ways() {
    // a(1 byte) 中(3 bytes) 😀(4 bytes, 2 UTF-16 units) b(1 byte)
    let t = field("a中😀b");
    assert_eq!(t.offset_to_utf16(0), 0);
    assert_eq!(t.offset_to_utf16(1), 1);
    assert_eq!(t.offset_to_utf16(4), 2);
    assert_eq!(t.offset_to_utf16(8), 4);
    assert_eq!(t.offset_to_utf16(9), 5);
    assert_eq!(t.offset_from_utf16(2), 4);
    assert_eq!(t.offset_from_utf16(3), 8);
    assert_eq!(t.offset_from_utf16(4), 8);
    assert_eq!(t.offset_from_utf16(99), 9);
    for b in [0, 1, 4, 8, 9] {
        assert_eq!(t.offset_from_utf16(t.offset_to_utf16(b)), b);
    }
}

#[test]
fn arrows_step_over_whole_clusters() {
    // "e" + combining acute accent is one cluster of 3 bytes.
    let mut t = field("e\u{301}x");
    assert_eq!(t.selected_range, 4..4);
    t.left();
    assert_eq!(t.selected_range, 3..3);
    t.left();
    assert_eq!(t.selected_range, 0..0);
    t.left();
    assert_eq!(t.selected_range, 0..0);
    t.right();
    assert_eq!(t.selected_range, 3..3);
    t.end();
    assert_eq!(t.selected_range, 4..4);
    t.home();
    assert_eq!(t.selected_range, 0..0);
}

#[test]
fn shift_arrows_extend_and_flip_the_selection() {
    let mut t = field("abc");
    t.move_to(1);
    t.select_right();
    assert_eq!(t.selected_range, 1..2);
    assert!(!t.selection_reversed);
    t.select_left();
    t.select_left();
    assert_eq!(t.selected_range, 0..1);
    assert!(t.selection_reversed);
    assert_eq!(t.cursor_offset(), 0);
    t.left();
    assert_eq!(t.selected_range, 0..0);
    t.select_all();
    assert_eq!(t.selected_range, 0..3);
    t.right();
    assert_eq!(t.selected_range, 3..3);
}

#[test]
fn backspace_and_delete_remove_one_cluster() {
    let mut t = field("ae\u{301}b");
    t.move_to(4);
    t.backspace();
    assert_eq!(t.text(), "ab");
    assert_eq!(t.selected_range, 1..1);
    t.delete();
    assert_eq!(t.text(), "a");
    t.delete();
    assert_eq!(t.text(), "a");
    t.home();
    t.backspace();
    assert_eq!(t.text(), "a");
    t.select_all();
    t.backspace();
    assert_eq!(t.text(), "");
    assert_eq!(t.selected_range, 0..0);
}

#[test]
fn copy_cut_and_paste() {
    let mut t = field("hello world");
    assert_eq!(t.copy(), None);
    assert_eq!(t.cut(), None);
    t.move_to(0);
    t.select_to(5);
    assert_eq!(t.copy().as_deref(), Some("hello"));
    let cut = t.cut().unwrap();
    assert_eq!(cut, "hello");
    assert_eq!(t.text(), " world");
    assert_eq!(t.selected_range, 0..0);
    t.paste(&cut);
    assert_eq!(t.text(), "hello world");
    assert_eq!(t.selected_range, 5..5);
    t.paste("a\nb");
    assert_eq!(t.text(), "helloa b world");
    assert_eq!(t.selected_range, 8..8);
}

#[test]
fn input_method_composition() {
    let mut t = field("ab");
    t.move_to(1);
    t.replace_and_mark_text_in_range(None, "ni", None);
    assert_eq!(t.text(), "anib");
    assert_eq!(t.marked_range, Some(1..3));
    assert_eq!(t.selected_range, 3..3);
    assert_eq!(t.marked_text_range(), Some(1..3));
    // the composition is replaced by the committed text
    t.replace_text_in_range(None, "你");
    assert_eq!(t.text(), "a你b");
    assert_eq!(t.marked_range, None);
    assert_eq!(t.selected_range, 4..4);
    assert_eq!(t.selected_text_range(), Some((2..2, false)));
    let mut actual = None;
    assert_eq!(t.text_for_range(1..2, &mut actual).as_deref(), Some("你"));
    assert_eq!(actual, Some(1..2));
    t.replace_and_mark_text_in_range(Some(0..1), "xy", Some(1..1));
    assert_eq!(t.text(), "xy你b");
    assert_eq!(t.marked_range, Some(0..2));
    assert_eq!(t.selected_range, 1..2);
    t.unmark_text();
    assert_eq!(t.marked_range, None);
}

#[test]
fn masked_field_shows_one_bullet_per_cluster() {
    let t = TextInput::new("p", "pe\u{301}", true);
    assert_eq!(t.display_text(), "••");
    assert_eq!(t.content_offset_to_display(1), 3);
    assert_eq!(t.content_offset_to_display(4), 6);
    assert_eq!(t.display_offset_to_content(0), 0);
    assert_eq!(t.display_offset_to_content(4), 1);
    assert_eq!(t.display_offset_to_content(6), 4);
    let plain = field("pw");
    assert_eq!(plain.display_text(), "pw");
    assert_eq!(plain.content_offset_to_display(1), 1);
    assert_eq!(plain.display_offset_to_content(2), 2);
    assert_eq!(TextInput::new("p", "", true).display_text(), "");
}

#[test]
fn mouse_drag_selects() {
    let mut t = field("abcdef");
    t.mouse_down(4, false);
    assert!(t.is_selecting);
    assert_eq!(t.selected_range, 4..4);
    t.mouse_move(1);
    assert_eq!(t.selected_range, 1..4);
    assert!(t.selection_reversed);
    t.mouse_up();
    assert!(!t.is_selecting);
    t.mouse_move(6);
    assert_eq!(t.selected_range, 1..4);
    t.mouse_down(6, true);
    assert_eq!(t.selected_range, 4..6);
    assert!(!t.selection_reversed);
}
