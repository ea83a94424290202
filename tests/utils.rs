use rpa_source::hash_utils::{hex, HashUtils};
use rpa_source::language::Language;
use rpa_source::span::{Position, Span};
use rpa_source::text_utils::TextUtils;
use rpa_source::validation::ValidationUtils;

#[test]
fn test_hash_text() {
    let text1 = "Hello World";
    let text2 = "Hello World";
    let text3 = "Different text";
    let hash1 = HashUtils::hash_text(text1);
    let hash2 = HashUtils::hash_text(text2);
    let hash3 = HashUtils::hash_text(text3);
    assert_eq!(hash1, hash2);
    assert_ne!(hash1, hash3);
}

#[test]
fn test_hash_file_content() {
    let text = "Hello World";
    let file_hash1 = HashUtils::hash_file_content(text, &Language::Python);
    let file_hash2 = HashUtils::hash_file_content(text, &Language::Python);
    let file_hash3 = HashUtils::hash_file_content(text, &Language::JavaScript);
    assert_eq!(file_hash1, file_hash2);
    assert_eq!(file_hash1, file_hash3);
    assert!(!file_hash1.is_empty());
    assert!(file_hash1.chars().all(|c| c.is_ascii_hexdigit()));
}

#[test]
fn hex_digits() {
    assert_eq!(hex(0), "0");
    assert_eq!(hex(255), "ff");
    assert_eq!(hex(0x1a2b), "1a2b");
    assert_eq!(hex(u64::MAX), "ffffffffffffffff");
}

#[test]
fn test_offset_to_position() {
    let text = "Hello\nWorld\nTest";
    let pos = TextUtils::offset_to_position(text, 6);
    assert_eq!(pos.line, 1);
    assert_eq!(pos.column, 0);
}

#[test]
fn test_position_to_offset() {
    let text = "Hello\nWorld\nTest";
    let offset = TextUtils::position_to_offset(text, &Position::new(1, 0));
    assert_eq!(offset, 6);
}

#[test]
fn test_count_lines() {
    let text = "Hello\nWorld\nTest";
    assert_eq!(TextUtils::count_lines(text), 3);
}

#[test]
fn test_get_line() {
    let text = "Hello\nWorld\nTest";
    assert_eq!(TextUtils::get_line(text, 1), Some("World"));
}

#[test]
fn test_get_text_slice() {
    let text = "Hello World";
    let span = Span::new(0, 5);
    let slice = TextUtils::get_text_slice(text, &span);
    assert_eq!(slice, "Hello");
}

#[test]
fn text_positions_count_characters() {
    let text = "a\u{e9}b\nc";
    assert_eq!(TextUtils::offset_to_position(text, 3), Position::new(0, 2));
    assert_eq!(TextUtils::offset_to_position(text, 100), Position::new(1, 1));
    assert_eq!(TextUtils::position_to_offset(text, &Position::new(0, 2)), 3);
    assert_eq!(TextUtils::position_to_offset(text, &Position::new(7, 0)), text.len());
}

#[test]
fn lines_and_blank_lines() {
    let text = "a\r\n  \n\u{3000}\nb\n";
    assert_eq!(TextUtils::count_lines(text), 2);
    assert_eq!(TextUtils::get_line(text, 0), Some("a"));
    assert_eq!(TextUtils::get_line(text, 1), Some("  "));
    assert_eq!(TextUtils::get_line(text, 3), Some("b"));
    assert_eq!(TextUtils::get_line(text, 4), None);
    assert_eq!(TextUtils::get_line("", 0), None);
    assert_eq!(TextUtils::get_line("x\r", 0), Some("x\r"));
}

#[test]
fn text_slices_are_cut_to_the_text() {
    let text = "Hello";
    assert_eq!(TextUtils::get_text_slice(text, &Span::new(2, 50)), "llo");
    assert_eq!(TextUtils::get_text_slice(text, &Span::new(9, 12)), "");
    assert_eq!(TextUtils::get_text_slice(text, &Span::new(3, 3)), "");
}

#[test]
fn test_validate_span() {
    let text = "Hello World";
    let span = Span::new(0, 5);
    assert!(ValidationUtils::validate_span(&span, text.len()));
}

#[test]
fn test_validate_position() {
    let text = "Hello World";
    let position = Position::new(0, 0);
    assert!(ValidationUtils::validate_position(&position, text));
}

#[test]
fn test_validate_file_id() {
    assert!(ValidationUtils::validate_file_id("test.py"));
    assert!(!ValidationUtils::validate_file_id(""));
}

#[test]
fn test_validation_edge_cases() {
    let text = "Hello";
    let valid_span = Span::new(0, 5);
    let invalid_span1 = Span::new(10, 15);
    let invalid_span2 = Span::new(5, 3);
    assert!(ValidationUtils::validate_span(&valid_span, text.len()));
    assert!(!ValidationUtils::validate_span(&invalid_span1, text.len()));
    assert!(!ValidationUtils::validate_span(&invalid_span2, text.len()));

    let multi_line_text = "Line 1\nLine 2\nLine 3";
    let valid_pos = Position::new(1, 2);
    let invalid_pos = Position::new(10, 0);
    assert!(ValidationUtils::validate_position(&valid_pos, multi_line_text));
    assert!(!ValidationUtils::validate_position(&invalid_pos, multi_line_text));

    assert!(ValidationUtils::validate_file_id("test.py"));
    assert!(ValidationUtils::validate_file_id("path/to/file.rs"));
    assert!(!ValidationUtils::validate_file_id(""));
    assert!(!ValidationUtils::validate_file_id("file\0with\0nulls"));
}

#[test]
fn utf16_positions_and_offsets() {
    let text = "a\u{1F600}b\nc";
    assert_eq!(TextUtils::position_utf8_to_utf16(text, &Position::new(0, 5)), Position::new(0, 3));
    assert_eq!(TextUtils::position_utf8_to_utf16(text, &Position::new(0, 2)), Position::new(0, 4));
    assert_eq!(TextUtils::position_utf8_to_utf16(text, &Position::new(5, 0)), Position::new(2, 0));
    assert_eq!(TextUtils::position_to_offset_utf16(text, &Position::new(1, 0)), 4);
    assert_eq!(TextUtils::position_to_offset_utf16(text, &Position::new(9, 0)), 5);
    assert_eq!(TextUtils::position_utf16_to_utf8(text, &Position::new(0, 3)), Position::new(0, 1));
    assert_eq!(TextUtils::position_utf16_to_utf8(text, &Position::new(0, 0)), Position::new(0, 0));
    assert_eq!(TextUtils::position_utf16_to_utf8(text, &Position::new(3, 1)), Position::new(2, 0));
    assert_eq!(TextUtils::span_utf8_to_utf16(text, &Span::new(5, 8)), Span::new(4, 5));
}

#[test]
fn utf16_offsets_back_to_positions() {
    let text = "a\u{1F600}b\nc";
    assert_eq!(TextUtils::offset_to_position_utf16(text, 0), Position::new(0, 0));
    assert_eq!(TextUtils::offset_to_position_utf16(text, 2), Position::new(0, 1));
    assert_eq!(TextUtils::offset_to_position_utf16(text, 4), Position::new(1, 0));
    assert_eq!(TextUtils::offset_to_position_utf16(text, 9), Position::new(2, 0));
    assert_eq!(TextUtils::span_utf16_to_utf8(text, &Span::new(2, 4)), Span::new(0, 7));
}
