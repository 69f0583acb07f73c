use lattice::form::FormField;

fn multiline_field(value: &str, caret: usize) -> FormField {
    let mut f = FormField::plain("body", value, false, true);
    f.set_caret(caret);
    f
}

#[test]
fn insert_char_places_at_caret_and_advances() {
    let mut f = multiline_field("hello", 2);
    f.insert_char('Z');
    assert_eq!(f.value, "heZllo");
    assert_eq!(f.caret, 3);
}

#[test]
fn backspace_deletes_before_caret() {
    let mut f = multiline_field("hello", 3);
    f.backspace();
    assert_eq!(f.value, "helo");
    assert_eq!(f.caret, 2);
}

#[test]
fn backspace_at_zero_is_noop() {
    let mut f = multiline_field("hi", 0);
    f.backspace();
    assert_eq!(f.value, "hi");
    assert_eq!(f.caret, 0);
}

#[test]
fn caret_horizontal_crosses_multi_byte_scalars() {
    let mut f = multiline_field("aé", 3);
    f.caret_left();
    assert_eq!(f.caret, 1);
    f.caret_left();
    assert_eq!(f.caret, 0);
    f.caret_right();
    assert_eq!(f.caret, 1);
    f.caret_right();
    assert_eq!(f.caret, 3);
}

#[test]
fn caret_up_keeps_column_on_longer_line() {
    let mut f = multiline_field("aaaaa\nbbbbb", 5 + 1 + 3);
    f.caret_up();
    assert_eq!(f.caret, 3);
}

#[test]
fn caret_up_clamps_to_shorter_line_end() {
    let mut f = multiline_field("ab\ncdefg", 2 + 1 + 4);
    f.caret_up();
    assert_eq!(f.caret, 2);
}

#[test]
fn caret_down_moves_to_next_line_or_end() {
    let mut f = multiline_field("abc\ndef", 1);
    f.caret_down();
    assert_eq!(f.caret, 5);
    f.caret_down();
    assert_eq!(f.caret, 7);
}

#[test]
fn caret_home_and_end_operate_per_line() {
    let mut f = multiline_field("abc\ndefg", 6);
    f.caret_home();
    assert_eq!(f.caret, 4);
    f.caret_end();
    assert_eq!(f.caret, 8);
}

#[test]
fn plain_puts_caret_at_end_in_bytes() {
    let f = FormField::plain("Name", "aé€😀", true, false);
    assert_eq!(f.caret, 1 + 2 + 3 + 4);
    assert_eq!(f.label, "Name");
    assert!(f.required);
    assert!(!f.multiline);
}

#[test]
fn set_caret_snaps_down_to_a_boundary() {
    let mut f = FormField::plain("x", "a€b", false, false);
    f.set_caret(2);
    assert_eq!(f.caret, 1);
    f.set_caret(3);
    assert_eq!(f.caret, 1);
    f.set_caret(4);
    assert_eq!(f.caret, 4);
    f.set_caret(99);
    assert_eq!(f.caret, 5);
}

#[test]
fn insert_multibyte_advances_by_its_width() {
    let mut f = multiline_field("ab", 1);
    f.insert_char('€');
    assert_eq!(f.value, "a€b");
    assert_eq!(f.caret, 4);
    f.backspace();
    assert_eq!(f.value, "ab");
    assert_eq!(f.caret, 1);
}

#[test]
fn caret_right_at_end_stays() {
    let mut f = multiline_field("ab", 2);
    f.caret_right();
    assert_eq!(f.caret, 2);
}

#[test]
fn caret_up_on_first_line_goes_to_start() {
    let mut f = multiline_field("abc\ndef", 2);
    f.caret_up();
    assert_eq!(f.caret, 0);
}

#[test]
fn current_col_and_line_start_reports_chars_and_bytes() {
    let f = multiline_field("é\nxéz", 6);
    assert_eq!(f.current_col_and_line_start(), (2, 3));
}
