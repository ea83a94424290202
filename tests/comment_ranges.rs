use rpa_source::comment_ranges::CommentRanges;
use rpa_source::text_size::{TextRange, TextSize};

fn range(start: u32, end: u32) -> TextRange {
    TextRange::new(TextSize::from(start), TextSize::from(end))
}

fn offsets(values: &[u32]) -> Vec<TextSize> {
    values.iter().map(|v| TextSize::from(*v)).collect()
}

#[test]
fn comments_in_range_returns_contained_comments() {
    let comments = CommentRanges::new(vec![range(10, 12), range(20, 25), range(30, 32)]);
    assert_eq!(comments.comments_in_range(range(15, 28)), &[range(20, 25)]);
    assert_eq!(comments.comments_in_range(range(0, 40)).len(), 3);
    assert!(comments.comments_in_range(range(13, 19)).is_empty());
}

#[test]
fn intersects_is_half_open() {
    let comments = CommentRanges::new(vec![range(5, 10)]);
    assert!(!comments.intersects(range(10, 15)));
    assert!(comments.intersects(range(9, 11)));
    assert!(!comments.intersects(range(0, 5)));
    assert!(comments.intersects(range(0, 6)));
}

#[test]
fn intersects_searches_all_ranges() {
    let comments =
        CommentRanges::new(vec![range(0, 2), range(5, 10), range(12, 20), range(30, 31)]);
    assert!(comments.intersects(range(10, 13)));
    assert!(comments.intersects(range(30, 40)));
    assert!(!comments.intersects(range(20, 30)));
    assert!(!CommentRanges::default().intersects(range(0, 100)));
}

#[test]
fn block_of_three_same_column() {
    let source = "# a\n# b\n# c\n";
    let comments = CommentRanges::new(vec![range(0, 3), range(4, 7), range(8, 11)]);
    assert_eq!(comments.block_comments(source), offsets(&[0, 4, 8]));
}

#[test]
fn block_of_two_same_column() {
    let source = "# a\n# b\n";
    let comments = CommentRanges::new(vec![range(0, 3), range(4, 7)]);
    assert_eq!(comments.block_comments(source), offsets(&[0, 4]));
}

#[test]
fn single_comment_is_not_a_block() {
    let source = "# a\n";
    let comments = CommentRanges::new(vec![range(0, 3)]);
    assert!(comments.block_comments(source).is_empty());
}

#[test]
fn blank_line_splits_blocks() {
    let source = "# a\n\n# b\n";
    let comments = CommentRanges::new(vec![range(0, 3), range(5, 8)]);
    assert!(comments.block_comments(source).is_empty());
}

#[test]
fn trailing_comment_never_joins_a_block() {
    let source = "x = 1  # t\n# a\n# b\n";
    let comments = CommentRanges::new(vec![range(7, 10), range(11, 14), range(15, 18)]);
    assert_eq!(comments.block_comments(source), offsets(&[11, 15]));

    let source = "# a\nx  # t\n# b\n";
    let comments = CommentRanges::new(vec![range(0, 3), range(7, 10), range(11, 14)]);
    assert!(comments.block_comments(source).is_empty());
}

#[test]
fn column_change_starts_new_block() {
    let source = "# a\n# b\n  # c\n  # d\n";
    let comments =
        CommentRanges::new(vec![range(0, 3), range(4, 7), range(10, 13), range(16, 19)]);
    assert_eq!(comments.block_comments(source), offsets(&[0, 4, 10, 16]));
}

#[test]
fn all_empty_comments_are_not_a_block() {
    let source = "#\n#  \n";
    let comments = CommentRanges::new(vec![range(0, 1), range(2, 5)]);
    assert!(comments.block_comments(source).is_empty());
    let source = "#\n# x\n";
    let comments = CommentRanges::new(vec![range(0, 1), range(2, 5)]);
    assert_eq!(comments.block_comments(source), offsets(&[0, 2]));
}

#[test]
fn own_line_comments() {
    assert!(!CommentRanges::is_own_line(TextSize::from(7), "x = 1  # trailing"));
    assert!(CommentRanges::is_own_line(TextSize::from(0), "# standalone\n"));
    assert!(CommentRanges::is_own_line(TextSize::from(6), "x = 1\n  # c"));
}

#[test]
fn empty_comments() {
    let source = "#   \n# x";
    assert!(CommentRanges::is_empty(range(0, 4), source));
    assert!(!CommentRanges::is_empty(range(5, 8), source));
}

#[test]
fn has_comments_widens_to_lines() {
    let source = "x = 1  # c\ny = 2\n";
    let comments = CommentRanges::new(vec![range(7, 10)]);
    assert!(comments.has_comments(&range(0, 5), source));
    assert!(!comments.has_comments(&range(11, 16), source));
}

#[test]
fn empty_ranges_share_no_position() {
    let comments = CommentRanges::new(vec![range(5, 10)]);
    assert!(!comments.intersects(range(7, 7)));
    assert!(!comments.intersects(range(5, 5)));
    let with_empty = CommentRanges::new(vec![range(2, 2), range(3, 3), range(5, 10)]);
    assert!(!with_empty.intersects(range(1, 4)));
    assert!(with_empty.intersects(range(1, 6)));
    assert_eq!(range(5, 10).intersect(range(7, 7)), None);
}

#[test]
fn comments_in_range_keeps_equal_empty_ranges() {
    let comments = CommentRanges::new(vec![range(5, 5), range(5, 5), range(8, 9)]);
    assert_eq!(comments.comments_in_range(range(5, 5)), &[range(5, 5), range(5, 5)]);
}
