use rpa_source::line_ranges::LineRanges;
use rpa_source::text_size::{TextRange, TextSize};

fn range(start: u32, end: u32) -> TextRange {
    TextRange::new(TextSize::from(start), TextSize::from(end))
}

#[test]
fn scans_line_bounds() {
    let text = "ab\r\ncd\nef";
    assert_eq!(text.line_start(TextSize::from(5)), TextSize::from(4));
    assert_eq!(text.line_start(TextSize::from(1)), TextSize::from(0));
    assert_eq!(text.line_end(TextSize::from(0)), TextSize::from(2));
    assert_eq!(text.full_line_end(TextSize::from(0)), TextSize::from(4));
    assert_eq!(text.full_line_end(TextSize::from(4)), TextSize::from(7));
    assert_eq!(text.full_line_end(TextSize::from(8)), TextSize::from(9));
    assert!(text.is_at_start_of_line(TextSize::from(7)));
    assert!(!text.is_at_start_of_line(TextSize::from(8)));
    assert_eq!(text.line_range(TextSize::from(5)), range(4, 6));
    assert_eq!(text.full_line_range(TextSize::from(5)), range(4, 7));
    assert_eq!(text.lines_range(range(1, 5)), range(0, 6));
    assert_eq!(text.full_lines_range(range(1, 5)), range(0, 7));
}

#[test]
fn bom_is_skipped_at_the_start() {
    let text = "\u{FEFF}ab";
    assert_eq!(text.bom_start_offset(), TextSize::from(3));
    assert_eq!(text.line_start(TextSize::from(4)), TextSize::from(3));
    assert_eq!("ab".bom_start_offset(), TextSize::from(0));
}

#[test]
fn line_breaks_in_ranges() {
    let text = "a\r\nb\nc\rd";
    assert!(text.contains_line_break(range(0, 2)));
    assert!(!text.contains_line_break(range(3, 4)));
    assert_eq!(text.count_lines(range(0, 8)), 3);
    assert_eq!(text.count_lines(range(0, 1)), 0);
    assert_eq!(text.count_lines(range(0, 3)), 1);
}
