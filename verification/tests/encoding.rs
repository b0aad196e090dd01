use rvi::file::encoding::{detect_line_ending, normalize_line_endings, strip_bom};
use rvi::file::LineEnding;

#[test]
fn test_line_ending_as_str_lf() {
    assert_eq!(LineEnding::Lf.as_str(), "\n");
}

#[test]
fn test_line_ending_as_str_crlf() {
    assert_eq!(LineEnding::CrLf.as_str(), "\r\n");
}

#[test]
fn test_line_ending_as_str_cr() {
    assert_eq!(LineEnding::Cr.as_str(), "\r");
}

#[test]
fn test_line_ending_display_name_lf() {
    assert_eq!(LineEnding::Lf.display_name(), "");
}

#[test]
fn test_line_ending_display_name_crlf() {
    assert_eq!(LineEnding::CrLf.display_name(), "[dos]");
}

#[test]
fn test_line_ending_display_name_cr() {
    assert_eq!(LineEnding::Cr.display_name(), "[mac]");
}

#[test]
fn test_line_ending_default() {
    assert_eq!(LineEnding::default(), LineEnding::Lf);
}

#[test]
fn test_detect_line_ending_lf() {
    assert_eq!(detect_line_ending("hello\nworld\n"), LineEnding::Lf);
}

#[test]
fn test_detect_line_ending_crlf() {
    assert_eq!(detect_line_ending("hello\r\nworld\r\n"), LineEnding::CrLf);
}

#[test]
fn test_detect_line_ending_cr() {
    assert_eq!(detect_line_ending("hello\rworld\r"), LineEnding::Cr);
}

#[test]
fn test_detect_line_ending_mixed_crlf_majority() {
    assert_eq!(detect_line_ending("a\r\nb\r\nc\n"), LineEnding::CrLf);
}

#[test]
fn test_detect_line_ending_mixed_lf_majority() {
    assert_eq!(detect_line_ending("a\nb\nc\r\n"), LineEnding::Lf);
}

#[test]
fn test_detect_line_ending_empty() {
    assert_eq!(detect_line_ending(""), LineEnding::Lf);
}

#[test]
fn test_detect_line_ending_no_line_endings() {
    assert_eq!(detect_line_ending("hello world"), LineEnding::Lf);
}

#[test]
fn test_detect_line_ending_single_lf() {
    assert_eq!(detect_line_ending("hello\n"), LineEnding::Lf);
}

#[test]
fn test_detect_line_ending_single_crlf() {
    assert_eq!(detect_line_ending("hello\r\n"), LineEnding::CrLf);
}

#[test]
fn test_detect_line_ending_single_cr() {
    assert_eq!(detect_line_ending("hello\r"), LineEnding::Cr);
}

#[test]
fn test_normalize_lf_unchanged() {
    assert_eq!(normalize_line_endings("hello\nworld\n"), "hello\nworld\n");
}

#[test]
fn test_normalize_crlf_to_lf() {
    assert_eq!(normalize_line_endings("hello\r\nworld\r\n"), "hello\nworld\n");
}

#[test]
fn test_normalize_cr_to_lf() {
    assert_eq!(normalize_line_endings("hello\rworld\r"), "hello\nworld\n");
}

#[test]
fn test_normalize_mixed() {
    assert_eq!(normalize_line_endings("a\r\nb\rc\n"), "a\nb\nc\n");
}

#[test]
fn test_normalize_empty() {
    assert_eq!(normalize_line_endings(""), "");
}

#[test]
fn test_normalize_no_line_endings() {
    assert_eq!(normalize_line_endings("hello"), "hello");
}

#[test]
fn test_strip_bom_present() {
    let bytes = &[0xEF, 0xBB, 0xBF, b'h', b'e', b'l', b'l', b'o'];
    let (stripped, had_bom) = strip_bom(bytes);
    assert!(had_bom);
    assert_eq!(stripped, b"hello");
}

#[test]
fn test_strip_bom_absent() {
    let bytes = b"hello";
    let (stripped, had_bom) = strip_bom(bytes);
    assert!(!had_bom);
    assert_eq!(stripped, b"hello");
}

#[test]
fn test_strip_bom_empty() {
    let bytes: &[u8] = &[];
    let (stripped, had_bom) = strip_bom(bytes);
    assert!(!had_bom);
    assert!(stripped.is_empty());
}

#[test]
fn test_strip_bom_only_bom() {
    let bytes = &[0xEF, 0xBB, 0xBF];
    let (stripped, had_bom) = strip_bom(bytes);
    assert!(had_bom);
    assert!(stripped.is_empty());
}

#[test]
fn test_strip_bom_partial_bom() {
    let bytes = &[0xEF, 0xBB, b'h'];
    let (stripped, had_bom) = strip_bom(bytes);
    assert!(!had_bom);
    assert_eq!(stripped, bytes);
}

#[test]
fn normalized_text_detects_lf() {
    // Normalizing leaves only line feeds, so detection then finds LF.
    let n = normalize_line_endings("a\r\nb\r\nc\r");
    assert_eq!(detect_line_ending(&n), LineEnding::Lf);
    // Normalizing twice changes nothing more.
    assert_eq!(normalize_line_endings(&n), n);
}

#[test]
fn detect_tie_prefers_crlf_then_cr() {
    assert_eq!(detect_line_ending("a\nb\r\n"), LineEnding::CrLf);
    assert_eq!(detect_line_ending("a\r\nb\r"), LineEnding::CrLf);
    assert_eq!(detect_line_ending("a\nb\r"), LineEnding::Cr);
    assert_eq!(detect_line_ending("a\nb\nc\r"), LineEnding::Lf);
    assert_eq!(detect_line_ending("abc"), LineEnding::Lf);
}

#[test]
fn normalize_turns_each_line_ending_into_one_lf() {
    let t = "a\r\nb\rc\nd\r";
    let r = rvi::file::encoding::normalize_line_endings(t);
    assert_eq!(r, "a\nb\nc\nd\n");
    assert_eq!(r.matches('\n').count(), 4);
    let strip = |s: &str| s.chars().filter(|c| *c != '\r' && *c != '\n').collect::<String>();
    assert_eq!(strip(&r), strip(t));
}
