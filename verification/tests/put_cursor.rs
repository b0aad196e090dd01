use rvi::buffer::unicode::prev_grapheme_boundary;
use unicode_segmentation::UnicodeSegmentation;

fn check_ascii() {
    let text = "abc";
    let grapheme_count = text.graphemes(true).count();
    assert_eq!(grapheme_count, 3);
    let last_grapheme_offset = text
        .grapheme_indices(true)
        .next_back()
        .map(|(offset, _)| offset)
        .unwrap_or(0);
    assert_eq!(last_grapheme_offset, 2);
}

fn check_multibyte() {
    let text = "\u{4F60}\u{597D}\u{4E16}";
    let grapheme_count = text.graphemes(true).count();
    assert_eq!(grapheme_count, 3);
    assert_eq!(text.len(), 9);
    let last_grapheme_offset = text
        .grapheme_indices(true)
        .next_back()
        .map(|(offset, _)| offset)
        .unwrap_or(0);
    assert_eq!(last_grapheme_offset, 6);
    assert_eq!(prev_grapheme_boundary(text, 9), 6);
    assert_eq!(prev_grapheme_boundary(text, 6), 3);
    assert_eq!(prev_grapheme_boundary(text, 3), 0);
}

fn check_combining() {
    let text = "cafe\u{0301}";
    let grapheme_count = text.graphemes(true).count();
    assert_eq!(grapheme_count, 4);
    let last_grapheme_offset = text
        .grapheme_indices(true)
        .next_back()
        .map(|(offset, _)| offset)
        .unwrap_or(0);
    assert_eq!(last_grapheme_offset, 3);
    assert_eq!(prev_grapheme_boundary(text, text.len()), 3);
}

#[test]
fn editing_test_put_cursor_position_with_ascii() {
    check_ascii();
}

#[test]
fn editing_test_put_cursor_position_with_multibyte() {
    check_multibyte();
}

#[test]
fn editing_test_put_cursor_position_with_combining_chars() {
    check_combining();
}

#[test]
fn mod_test_put_cursor_position_with_ascii() {
    check_ascii();
}

#[test]
fn mod_test_put_cursor_position_with_multibyte() {
    check_multibyte();
}

#[test]
fn mod_test_put_cursor_position_with_combining_chars() {
    check_combining();
}

#[test]
fn next_grapheme_boundary_skips_combining_mark() {
    assert_eq!(rvi::buffer::unicode::next_grapheme_boundary("cafe\u{0301}x", 3), 6);
    assert_eq!(rvi::buffer::unicode::next_grapheme_boundary("abc", 0), 1);
}
