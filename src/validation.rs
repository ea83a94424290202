//! Checks of spans, positions and file identifiers against a text.
use vstd::prelude::*;
use vstd::string::StringSliceAdditionalSpecFns;

use crate::span::{Position, Span};
use crate::text_utils::{content_lines_scan, TextUtils};

verus! {

/// Validity checks.
pub struct ValidationUtils;

impl ValidationUtils {
    /// Whether the span is ordered and ends within a text of `text_len` bytes.
    pub fn validate_span(span: &Span, text_len: usize) -> (r: bool)
        ensures
            r == (span.start <= span.end && span.end <= text_len),
    {
        span.start <= span.end && span.end <= text_len
    }

    /// Whether the line of `position` is below the number of lines of `text` that hold a
    /// character that is not whitespace.
    pub fn validate_position(position: &Position, text: &str) -> (r: bool)
        ensures
            r == (position.line < content_lines_scan(text@).0),
    {
        let line_count = TextUtils::count_lines(text);
        position.line < line_count
    }

    /// Whether the identifier is not empty and holds no NUL character (no zero byte).
    pub fn validate_file_id(file_id: &str) -> (r: bool)
        ensures
            r == (file_id.spec_bytes().len() > 0 && forall|k: int|
                0 <= k < file_id.spec_bytes().len() ==> file_id.spec_bytes()[k] != 0),
    {
        let bytes = file_id.as_bytes();
        if bytes.len() == 0 {
            return false;
        }
        let mut k: usize = 0;
        while k < bytes.len()
            invariant
                bytes@ == file_id.spec_bytes(),
                k <= bytes@.len(),
                forall|j: int| 0 <= j < k ==> bytes@[j] != 0,
            decreases bytes@.len() - k,
        {
            if bytes[k] == 0 {
                return false;
            }
            k += 1;
        }
        true
    }
}

} // verus!
