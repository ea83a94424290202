use vstd::prelude::*;
use vstd::string::StringSliceAdditionalSpecFns;

verus! {

/// Width in bytes of the UTF-8 encoding of the character with code point `c`.
pub open spec fn utf8_width(c: u32) -> nat {
    if c < 0x80 {
        1
    } else if c < 0x800 {
        2
    } else if c < 0x10000 {
        3
    } else {
        4
    }
}

/// A measure of text length, equivalently an offset into text: a count of UTF-8 bytes.
#[derive(Clone, Copy, Debug, Default, PartialEq, Eq, PartialOrd, Ord, Hash, Structural)]
pub struct TextSize {
    pub raw: u32,
}

/// Values whose length in UTF-8 bytes can be measured.
pub trait TextLen {
    spec fn spec_text_len(&self) -> nat;

    fn text_len(self) -> (r: TextSize)
        requires
            self.spec_text_len() <= u32::MAX,
        ensures
            r.raw == self.spec_text_len(),
    ;
}

impl TextLen for char {
    open spec fn spec_text_len(&self) -> nat {
        utf8_width(*self as u32)
    }

    fn text_len(self) -> (r: TextSize) {
        let c = self as u32;
        let width: u32 = if c < 0x80 {
            1
        } else if c < 0x800 {
            2
        } else if c < 0x10000 {
            3
        } else {
            4
        };
        TextSize { raw: width }
    }
}

impl<'a> TextLen for &'a str {
    open spec fn spec_text_len(&self) -> nat {
        self.spec_bytes().len()
    }

    fn text_len(self) -> (r: TextSize) {
        TextSize { raw: self.len() as u32 }
    }
}

impl TextSize {
    /// Creates a `TextSize` at the given offset.
    pub fn new(offset: u32) -> (r: TextSize)
        ensures
            r.raw == offset,
    {
        TextSize { raw: offset }
    }

    /// The size in UTF-8 bytes of a character or a string.
    pub fn of<T: TextLen>(text: T) -> (r: TextSize)
        requires
            text.spec_text_len() <= u32::MAX,
        ensures
            r.raw == text.spec_text_len(),
    {
        text.text_len()
    }

    pub fn to_u32(&self) -> (r: u32)
        ensures
            r == self.raw,
    {
        self.raw
    }

    pub fn to_usize(&self) -> (r: usize)
        ensures
            r == self.raw,
    {
        self.raw as usize
    }

    /// Addition that returns `None` on overflow.
    pub fn checked_add(self, rhs: TextSize) -> (r: Option<TextSize>)
        ensures
            self.raw + rhs.raw <= u32::MAX ==> r == Some(TextSize { raw: (self.raw + rhs.raw) as u32 }),
            self.raw + rhs.raw > u32::MAX ==> r.is_none(),
    {
        match self.raw.checked_add(rhs.raw) {
            Some(raw) => Some(TextSize { raw }),
            None => None,
        }
    }

    /// Subtraction that returns `None` on underflow.
    pub fn checked_sub(self, rhs: TextSize) -> (r: Option<TextSize>)
        ensures
            rhs.raw <= self.raw ==> r == Some(TextSize { raw: (self.raw - rhs.raw) as u32 }),
            rhs.raw > self.raw ==> r.is_none(),
    {
        if rhs.raw <= self.raw {
            Some(TextSize { raw: self.raw - rhs.raw })
        } else {
            None
        }
    }

    /// Addition whose caller guarantees that the sum fits.
    pub fn add(self, rhs: TextSize) -> (r: TextSize)
        requires
            self.raw + rhs.raw <= u32::MAX,
        ensures
            r.raw == self.raw + rhs.raw,
    {
        TextSize { raw: self.raw + rhs.raw }
    }

    /// Subtraction whose caller guarantees that `rhs` is not larger than `self`.
    pub fn sub(self, rhs: TextSize) -> (r: TextSize)
        requires
            rhs.raw <= self.raw,
        ensures
            r.raw == self.raw - rhs.raw,
    {
        TextSize { raw: self.raw - rhs.raw }
    }
}

impl From<u32> for TextSize {
    fn from(raw: u32) -> (r: TextSize) {
        TextSize { raw }
    }
}

impl vstd::std_specs::convert::FromSpecImpl<u32> for TextSize {
    open spec fn obeys_from_spec() -> bool {
        true
    }

    open spec fn from_spec(raw: u32) -> TextSize {
        TextSize { raw }
    }
}

impl From<TextSize> for u32 {
    fn from(value: TextSize) -> (r: u32) {
        value.raw
    }
}

impl vstd::std_specs::convert::FromSpecImpl<TextSize> for u32 {
    open spec fn obeys_from_spec() -> bool {
        true
    }

    open spec fn from_spec(value: TextSize) -> u32 {
        value.raw
    }
}

impl From<TextSize> for usize {
    fn from(value: TextSize) -> (r: usize) {
        value.raw as usize
    }
}

impl vstd::std_specs::convert::FromSpecImpl<TextSize> for usize {
    open spec fn obeys_from_spec() -> bool {
        true
    }

    open spec fn from_spec(value: TextSize) -> usize {
        value.raw as usize
    }
}

/// Whether two half-open ranges share at least one position: the larger start lies before
/// the smaller end. An empty range shares no position with any range.
pub open spec fn spans_overlap(a_start: nat, a_end: nat, b_start: nat, b_end: nat) -> bool {
    vstd::math::max(a_start as int, b_start as int) < vstd::math::min(a_end as int, b_end as int)
}

/// A half-open byte range `[start, end)` with `start <= end`.
#[derive(Clone, Copy, Debug, PartialEq, Eq, Hash, Structural)]
pub struct TextRange {
    start: TextSize,
    end: TextSize,
}

impl TextRange {
    #[verifier::type_invariant]
    spec fn ordered(self) -> bool {
        self.start.raw <= self.end.raw
    }

    pub closed spec fn spec_start(self) -> nat {
        self.start.raw as nat
    }

    /// The end of the range; never before its start.
    pub closed spec fn spec_end(self) -> nat {
        if self.end.raw < self.start.raw {
            self.start.raw as nat
        } else {
            self.end.raw as nat
        }
    }

    /// A range never ends before it starts.
    pub broadcast proof fn lemma_ordered(self)
        ensures
            #[trigger] self.spec_end() >= self.spec_start(),
    {
    }

    pub open spec fn spec_len(self) -> nat {
        (self.spec_end() - self.spec_start()) as nat
    }

    pub open spec fn overlaps(self, other: TextRange) -> bool {
        spans_overlap(self.spec_start(), self.spec_end(), other.spec_start(), other.spec_end())
    }

    /// The range `[start, end)`; `start` must not be after `end`.
    pub fn new(start: TextSize, end: TextSize) -> (r: TextRange)
        requires
            start.raw <= end.raw,
        ensures
            r.spec_start() == start.raw,
            r.spec_end() == end.raw,
    {
        TextRange { start, end }
    }

    /// The range of `len` bytes starting at `offset`.
    pub fn at(offset: TextSize, len: TextSize) -> (r: TextRange)
        requires
            offset.raw + len.raw <= u32::MAX,
        ensures
            r.spec_start() == offset.raw,
            r.spec_end() == offset.raw + len.raw,
    {
        TextRange { start: offset, end: TextSize { raw: offset.raw + len.raw } }
    }

    /// The empty range at `offset`.
    pub fn empty(offset: TextSize) -> (r: TextRange)
        ensures
            r.spec_start() == offset.raw,
            r.spec_end() == offset.raw,
    {
        TextRange { start: offset, end: offset }
    }

    /// The range from the start of the text up to `end`.
    pub fn up_to(end: TextSize) -> (r: TextRange)
        ensures
            r.spec_start() == 0,
            r.spec_end() == end.raw,
    {
        TextRange { start: TextSize { raw: 0 }, end }
    }

    pub fn start(&self) -> (r: TextSize)
        ensures
            r.raw == self.spec_start(),
            r.raw <= self.spec_end(),
    {
        proof {
            use_type_invariant(self);
        }
        self.start
    }

    pub fn end(&self) -> (r: TextSize)
        ensures
            r.raw == self.spec_end(),
            self.spec_start() <= r.raw,
    {
        proof {
            use_type_invariant(self);
        }
        self.end
    }

    pub fn len(&self) -> (r: TextSize)
        ensures
            r.raw == self.spec_len(),
            self.spec_start() <= self.spec_end(),
    {
        proof {
            use_type_invariant(self);
        }
        TextSize { raw: self.end.raw - self.start.raw }
    }

    pub fn is_empty(&self) -> (r: bool)
        ensures
            r == (self.spec_start() == self.spec_end()),
    {
        proof {
            use_type_invariant(self);
        }
        self.start.raw == self.end.raw
    }

    /// Whether `offset` lies in `[start, end)`.
    pub fn contains(&self, offset: TextSize) -> (r: bool)
        ensures
            r == (self.spec_start() <= offset.raw && offset.raw < self.spec_end()),
    {
        proof {
            use_type_invariant(self);
        }
        self.start.raw <= offset.raw && offset.raw < self.end.raw
    }

    /// Whether `offset` lies in `[start, end]`.
    pub fn contains_inclusive(&self, offset: TextSize) -> (r: bool)
        ensures
            r == (self.spec_start() <= offset.raw && offset.raw <= self.spec_end()),
    {
        proof {
            use_type_invariant(self);
        }
        self.start.raw <= offset.raw && offset.raw <= self.end.raw
    }

    /// Whether `other` lies entirely inside this range.
    pub fn contains_range(&self, other: TextRange) -> (r: bool)
        ensures
            r == (self.spec_start() <= other.spec_start() && other.spec_end() <= self.spec_end()),
    {
        proof {
            use_type_invariant(self);
            use_type_invariant(&other);
        }
        self.start.raw <= other.start.raw && other.end.raw <= self.end.raw
    }

    /// The part shared by both ranges, or `None` when they have no position in common.
    /// Ranges that only touch at a boundary, such as `[5, 10)` and `[10, 15)`, do not overlap.
    pub fn intersect(&self, other: TextRange) -> (r: Option<TextRange>)
        ensures
            r.is_some() == self.overlaps(other),
            r matches Some(x) ==> x.spec_start() == vstd::math::max(
                self.spec_start() as int,
                other.spec_start() as int,
            ) && x.spec_end() == vstd::math::min(self.spec_end() as int, other.spec_end() as int),
    {
        proof {
            use_type_invariant(self);
            use_type_invariant(&other);
        }
        if self.start.raw < other.end.raw && other.start.raw < self.end.raw
            && self.start.raw < self.end.raw && other.start.raw < other.end.raw {
            let start = if self.start.raw >= other.start.raw {
                self.start
            } else {
                other.start
            };
            let end = if self.end.raw <= other.end.raw {
                self.end
            } else {
                other.end
            };
            Some(TextRange { start, end })
        } else {
            None
        }
    }
}

} // verus!

verus! {

/// Values that occupy a range of the text.
pub trait Ranged {
    spec fn spec_range(&self) -> TextRange;

    fn range(&self) -> (r: TextRange)
        ensures
            r == self.spec_range(),
    ;
}

impl Ranged for TextRange {
    open spec fn spec_range(&self) -> TextRange {
        *self
    }

    fn range(&self) -> (r: TextRange) {
        *self
    }
}

} // verus!
