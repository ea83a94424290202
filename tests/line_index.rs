use rpa_source::line_index::{LineColumn, LineIndex, OneIndexed, PositionEncoding, SourceLocation};
use rpa_source::source_file::{SourceCode, SourceFileBuilder};
use rpa_source::text_size::{TextRange, TextSize};

fn lc(line: usize, column: usize) -> LineColumn {
    LineColumn {
        line: OneIndexed::from_zero_indexed(line),
        column: OneIndexed::from_zero_indexed(column),
    }
}

#[test]
fn ascii_index() {
    let index = LineIndex::from_source_text("");
    assert_eq!(index.line_starts(), &[TextSize::from(0)]);

    let index = LineIndex::from_source_text("x = 1");
    assert_eq!(index.line_starts(), &[TextSize::from(0)]);

    let index = LineIndex::from_source_text("x = 1\n");
    assert_eq!(index.line_starts(), &[TextSize::from(0), TextSize::from(6)]);

    let index = LineIndex::from_source_text("x = 1\ny = 2\nz = x + y\n");
    assert_eq!(
        index.line_starts(),
        &[TextSize::from(0), TextSize::from(6), TextSize::from(12), TextSize::from(22)]
    );
}

#[test]
fn ascii_source_location() {
    let contents = "x = 1\ny = 2";
    let index = LineIndex::from_source_text(contents);

    // First row.
    let loc = index.line_column(TextSize::from(2), contents);
    assert_eq!(loc, lc(0, 2));

    // Second row.
    let loc = index.line_column(TextSize::from(6), contents);
    assert_eq!(loc, lc(1, 0));

    let loc = index.line_column(TextSize::from(11), contents);
    assert_eq!(loc, lc(1, 5));
}

#[test]
fn ascii_carriage_return() {
    let contents = "x = 4\ry = 3";
    let index = LineIndex::from_source_text(contents);
    assert_eq!(index.line_starts(), &[TextSize::from(0), TextSize::from(6)]);

    assert_eq!(index.line_column(TextSize::from(4), contents), lc(0, 4));
    assert_eq!(index.line_column(TextSize::from(6), contents), lc(1, 0));
    assert_eq!(index.line_column(TextSize::from(7), contents), lc(1, 1));
}

#[test]
fn ascii_carriage_return_newline() {
    let contents = "x = 4\r\ny = 3";
    let index = LineIndex::from_source_text(contents);
    assert_eq!(index.line_starts(), &[TextSize::from(0), TextSize::from(7)]);

    assert_eq!(index.line_column(TextSize::from(4), contents), lc(0, 4));
    assert_eq!(index.line_column(TextSize::from(7), contents), lc(1, 0));
    assert_eq!(index.line_column(TextSize::from(8), contents), lc(1, 1));
}

#[test]
fn utf8_index() {
    let index = LineIndex::from_source_text("x = '\u{1FAE3}'");
    assert_eq!(index.line_count(), 1);
    assert_eq!(index.line_starts(), &[TextSize::from(0)]);

    let index = LineIndex::from_source_text("x = '\u{1FAE3}'\n");
    assert_eq!(index.line_count(), 2);
    assert_eq!(index.line_starts(), &[TextSize::from(0), TextSize::from(11)]);

    let index = LineIndex::from_source_text("x = '\u{1FAE3}'\ny = 2\nz = x + y\n");
    assert_eq!(index.line_count(), 4);
    assert_eq!(
        index.line_starts(),
        &[TextSize::from(0), TextSize::from(11), TextSize::from(17), TextSize::from(27)]
    );

    let index = LineIndex::from_source_text("# \u{1FAE3}\nclass Foo:\n    \"\"\".\"\"\"");
    assert_eq!(index.line_count(), 3);
    assert_eq!(
        index.line_starts(),
        &[TextSize::from(0), TextSize::from(7), TextSize::from(18)]
    );
}

#[test]
fn utf8_carriage_return() {
    let contents = "x = '\u{1FAE3}'\ry = 3";
    let index = LineIndex::from_source_text(contents);
    assert_eq!(index.line_count(), 2);
    assert_eq!(index.line_starts(), &[TextSize::from(0), TextSize::from(11)]);

    // Second '
    assert_eq!(index.line_column(TextSize::from(9), contents), lc(0, 6));
    assert_eq!(index.line_column(TextSize::from(11), contents), lc(1, 0));
    assert_eq!(index.line_column(TextSize::from(12), contents), lc(1, 1));
}

#[test]
fn utf8_carriage_return_newline() {
    let contents = "x = '\u{1FAE3}'\r\ny = 3";
    let index = LineIndex::from_source_text(contents);
    assert_eq!(index.line_count(), 2);
    assert_eq!(index.line_starts(), &[TextSize::from(0), TextSize::from(12)]);

    // Second '
    assert_eq!(index.line_column(TextSize::from(9), contents), lc(0, 6));
    assert_eq!(index.line_column(TextSize::from(12), contents), lc(1, 0));
    assert_eq!(index.line_column(TextSize::from(13), contents), lc(1, 1));
}

#[test]
fn utf8_byte_offset() {
    let contents = "x = '\u{2603}'\ny = 2";
    let index = LineIndex::from_source_text(contents);
    assert_eq!(index.line_starts(), &[TextSize::from(0), TextSize::from(10)]);

    // First row.
    assert_eq!(index.line_column(TextSize::from(0), contents), lc(0, 0));
    assert_eq!(index.line_column(TextSize::from(5), contents), lc(0, 5));
    assert_eq!(index.line_column(TextSize::from(8), contents), lc(0, 6));

    // Second row.
    assert_eq!(index.line_column(TextSize::from(10), contents), lc(1, 0));

    // One-past-the-end.
    assert_eq!(index.line_column(TextSize::from(15), contents), lc(1, 5));
}

#[test]
fn crlf_counts_as_one_break() {
    let index = LineIndex::from_source_text("a\r\nb");
    assert_eq!(index.line_count(), 2);
    assert_eq!(index.line_starts(), &[TextSize::from(0), TextSize::from(3)]);
}

#[test]
fn bom_is_not_a_column() {
    let text = "\u{FEFF}abc";
    let index = LineIndex::from_source_text(text);
    assert_eq!(index.line_column(TextSize::from(3), text), lc(0, 0));
    assert_eq!(index.line_column(TextSize::from(4), text), lc(0, 1));
}

#[test]
fn bom_only_text() {
    let text = "\u{FEFF}";
    let index = LineIndex::from_source_text(text);
    assert_eq!(index.line_starts(), &[TextSize::from(0)]);
    assert_eq!(index.line_column(TextSize::from(3), text), lc(0, 0));
}

#[test]
fn ascii_scenario_positions() {
    let text = "x=1\ny=2\n";
    let index = LineIndex::from_source_text(text);
    assert_eq!(
        index.line_starts(),
        &[TextSize::from(0), TextSize::from(4), TextSize::from(8)]
    );
    assert_eq!(index.line_column(TextSize::from(4), text), lc(1, 0));
    let utf16 = index.source_location(TextSize::from(4), text, PositionEncoding::Utf16);
    let utf32 = index.source_location(TextSize::from(4), text, PositionEncoding::Utf32);
    assert_eq!(utf16, utf32);
    assert_eq!(utf16.line.get(), 2);
    assert_eq!(utf16.character_offset.get(), 1);
}

#[test]
fn line_start_round_trip() {
    let text = "first\nsecond line\r\nthird\rlast";
    let index = LineIndex::from_source_text(text);
    for o in 0..=text.len() as u32 {
        let line = index.line_index(TextSize::from(o));
        let start = index.line_start(line, text);
        assert_eq!(index.line_index(start), line);
    }
}

#[test]
fn line_starts_strictly_increase() {
    for text in ["", "\n\n", "\r\r\n\n", "a\nb\rc\r\nd", "\u{1FAE3}\n\u{2603}\r"] {
        let index = LineIndex::from_source_text(text);
        let starts = index.line_starts();
        assert_eq!(starts[0], TextSize::from(0));
        for pair in starts.windows(2) {
            assert!(pair[0].to_u32() < pair[1].to_u32());
        }
    }
}

#[test]
fn source_location_encodings() {
    let text = "a\u{1FAE3}b\u{e9}c";
    let index = LineIndex::from_source_text(text);
    assert!(!index.is_ascii());
    // 'b' follows one astral character: byte 5, UTF-16 unit 3, code point 2.
    let at_b = TextSize::from(5);
    let utf8 = index.source_location(at_b, text, PositionEncoding::Utf8);
    let utf16 = index.source_location(at_b, text, PositionEncoding::Utf16);
    let utf32 = index.source_location(at_b, text, PositionEncoding::Utf32);
    assert_eq!(utf8.character_offset.to_zero_indexed(), 5);
    assert_eq!(utf16.character_offset.to_zero_indexed(), 3);
    assert_eq!(utf32.character_offset.to_zero_indexed(), 2);
}

#[test]
fn offset_inverts_source_location() {
    let text = "a\u{1FAE3}b\u{e9}c\nxy";
    let index = LineIndex::from_source_text(text);
    for encoding in [PositionEncoding::Utf8, PositionEncoding::Utf16, PositionEncoding::Utf32] {
        for o in [0u32, 1, 5, 6, 8, 9, 10, 11, 12] {
            let loc = index.source_location(TextSize::from(o), text, encoding);
            assert_eq!(index.offset(loc, text, encoding), TextSize::from(o));
        }
    }
}

#[test]
fn offset_clamps_to_line() {
    let text = "ab\ncd";
    let index = LineIndex::from_source_text(text);
    let far = SourceLocation {
        line: OneIndexed::from_zero_indexed(0),
        character_offset: OneIndexed::from_zero_indexed(10),
    };
    assert_eq!(index.offset(far, text, PositionEncoding::Utf32), TextSize::from(3));
    let past = SourceLocation {
        line: OneIndexed::from_zero_indexed(5),
        character_offset: OneIndexed::from_zero_indexed(0),
    };
    assert_eq!(index.offset(past, text, PositionEncoding::Utf16), TextSize::from(5));
}

#[test]
fn line_bounds() {
    let text = "ab\r\ncd\nef";
    let index = LineIndex::from_source_text(text);
    let first = OneIndexed::from_zero_indexed(0);
    let second = OneIndexed::from_zero_indexed(1);
    let last = OneIndexed::from_zero_indexed(2);
    let virtual_line = OneIndexed::from_zero_indexed(3);
    assert_eq!(index.line_start(second, text), TextSize::from(4));
    assert_eq!(index.line_end(first, text), TextSize::from(4));
    assert_eq!(index.line_end_exclusive(first, text), TextSize::from(2));
    assert_eq!(index.line_end_exclusive(second, text), TextSize::from(6));
    assert_eq!(index.line_end_exclusive(last, text), TextSize::from(9));
    let range = index.line_range(second, text);
    assert_eq!((range.start(), range.end()), (TextSize::from(4), TextSize::from(7)));
    let range = index.line_range(virtual_line, text);
    assert_eq!((range.start(), range.end()), (TextSize::from(9), TextSize::from(9)));
}

#[test]
fn one_indexed_arithmetic() {
    assert!(OneIndexed::new(0).is_none());
    assert_eq!(OneIndexed::new(3).unwrap().get(), 3);
    let one = OneIndexed::from_zero_indexed(0);
    assert_eq!(one.get(), 1);
    assert_eq!(one.saturating_sub(5).get(), 1);
    assert_eq!(one.saturating_add(4).get(), 5);
    assert_eq!(OneIndexed::from_zero_indexed(usize::MAX).get(), usize::MAX);
    assert_eq!(OneIndexed::from_zero_indexed(usize::MAX).saturating_add(1).get(), usize::MAX);
    let three = OneIndexed::new(3).unwrap();
    assert_eq!(three.checked_sub(one).unwrap().get(), 2);
    assert!(one.checked_sub(three).is_none());
    assert!(three.checked_sub(three).is_none());
    assert_eq!(three.checked_add(one).unwrap().get(), 4);
    assert!(OneIndexed::new(usize::MAX).unwrap().checked_add(one).is_none());
}

#[test]
fn source_code_and_source_file() {
    let text = "ab\r\ncd\n\u{e9}f";
    let index = LineIndex::from_source_text(text);
    let code = SourceCode::new(text, &index);
    assert_eq!(code.line_count(), 3);
    assert_eq!(code.line_text(OneIndexed::from_zero_indexed(0)), "ab\r\n");
    assert_eq!(code.line_text(OneIndexed::from_zero_indexed(2)), "\u{e9}f");
    assert_eq!(code.line_text(OneIndexed::from_zero_indexed(3)), "");
    assert_eq!(code.up_to(TextSize::from(4)), "ab\r\n");
    assert_eq!(code.after(TextSize::from(7)), "\u{e9}f");
    assert_eq!(code.slice(TextRange::new(TextSize::from(4), TextSize::from(6))), "cd");
    assert_eq!(code.line_index(TextSize::from(9)), OneIndexed::from_zero_indexed(2));
    assert_eq!(code.line_column(TextSize::from(9)), lc(2, 1));
    assert_eq!(code.line_start(OneIndexed::from_zero_indexed(1)), TextSize::from(4));
    assert_eq!(code.line_end(OneIndexed::from_zero_indexed(1)), TextSize::from(7));
    assert_eq!(code.line_end_exclusive(OneIndexed::from_zero_indexed(0)), TextSize::from(2));
    assert_eq!(code.text(), text);

    let file = SourceFileBuilder::new("a.py", text).finish();
    assert_eq!(file.name(), "a.py");
    assert_eq!(file.source_text(), text);
    assert_eq!(file.index().line_count(), 3);
    assert_eq!(file.slice(TextRange::new(TextSize::from(0), TextSize::from(2))), "ab");
    assert_eq!(file.to_source_code().line_count(), 3);
    let again = file.clone();
    assert!(again == file);
    let other = SourceFileBuilder::new("b.py", text).line_index(index.clone()).finish();
    assert!(other != file);
    assert_eq!(file.cmp(&other), std::cmp::Ordering::Less);
    assert_eq!(other.cmp(&file), std::cmp::Ordering::Greater);
    assert_eq!(file.cmp(&again), std::cmp::Ordering::Equal);
    let mut builder = SourceFileBuilder::new("c.py", "x");
    builder.set_line_index(LineIndex::from_source_text("x"));
    assert_eq!(builder.finish().index().line_count(), 1);
}
