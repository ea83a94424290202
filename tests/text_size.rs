use rpa_source::text_size::{TextRange, TextSize};

#[test]
fn text_size_of_char_and_str() {
    assert_eq!(TextSize::of('\u{1F980}'), TextSize::from(4));
    assert_eq!(TextSize::of('a'), TextSize::from(1));
    assert_eq!(TextSize::of("rust-analyzer"), TextSize::from(13));
    assert_eq!(TextSize::from(4), TextSize::new(4));
    assert_eq!(TextSize::from(4).to_u32(), 4);
    assert_eq!(TextSize::from(4).to_usize(), 4);
}

#[test]
fn checked_arithmetic() {
    assert_eq!(TextSize::from(3).checked_add(TextSize::from(4)), Some(TextSize::from(7)));
    assert_eq!(TextSize::from(u32::MAX).checked_add(TextSize::from(1)), None);
    assert_eq!(TextSize::from(7).checked_sub(TextSize::from(4)), Some(TextSize::from(3)));
    assert_eq!(TextSize::from(3).checked_sub(TextSize::from(4)), None);
}

#[test]
fn range_intersection() {
    let a = TextRange::new(TextSize::from(5), TextSize::from(10));
    let b = TextRange::new(TextSize::from(8), TextSize::from(15));
    let c = TextRange::new(TextSize::from(10), TextSize::from(15));
    assert_eq!(a.intersect(b), Some(TextRange::new(TextSize::from(8), TextSize::from(10))));
    assert_eq!(a.intersect(c), None);
    assert_eq!(a.len(), TextSize::from(5));
    assert!(a.contains(TextSize::from(5)));
    assert!(!a.contains(TextSize::from(10)));
    assert!(a.contains_inclusive(TextSize::from(10)));
    assert!(TextRange::empty(TextSize::from(3)).is_empty());
}
