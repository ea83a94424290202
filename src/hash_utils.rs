//! Hashes of text, for caching.
use std::collections::hash_map::DefaultHasher;
use std::hash::{Hash, Hasher};
use vstd::prelude::*;
use vstd::string::StringExecFns;

use crate::language::Language;

verus! {

pub open spec fn hex_digit_char(d: nat) -> char {
    if d < 10 {
        crate::fmt_text::digit_char(d)
    } else if d == 10 {
        'a'
    } else if d == 11 {
        'b'
    } else if d == 12 {
        'c'
    } else if d == 13 {
        'd'
    } else if d == 14 {
        'e'
    } else {
        'f'
    }
}

/// The lowercase hexadecimal digits of `n`, without leading zeros.
pub open spec fn hex_text(n: nat) -> Seq<char>
    decreases n,
{
    if n < 16 {
        seq![hex_digit_char(n)]
    } else {
        hex_text(n / 16).push(hex_digit_char(n % 16))
    }
}

fn hex_digit_str(d: u64) -> (r: &'static str)
    requires
        d < 16,
    ensures
        r@ == seq![hex_digit_char(d as nat)],
{
    proof {
        reveal_strlit("0");
        reveal_strlit("1");
        reveal_strlit("2");
        reveal_strlit("3");
        reveal_strlit("4");
        reveal_strlit("5");
        reveal_strlit("6");
        reveal_strlit("7");
        reveal_strlit("8");
        reveal_strlit("9");
        reveal_strlit("a");
        reveal_strlit("b");
        reveal_strlit("c");
        reveal_strlit("d");
        reveal_strlit("e");
        reveal_strlit("f");
    }
    let r = if d == 0 {
        "0"
    } else if d == 1 {
        "1"
    } else if d == 2 {
        "2"
    } else if d == 3 {
        "3"
    } else if d == 4 {
        "4"
    } else if d == 5 {
        "5"
    } else if d == 6 {
        "6"
    } else if d == 7 {
        "7"
    } else if d == 8 {
        "8"
    } else if d == 9 {
        "9"
    } else if d == 10 {
        "a"
    } else if d == 11 {
        "b"
    } else if d == 12 {
        "c"
    } else if d == 13 {
        "d"
    } else if d == 14 {
        "e"
    } else {
        "f"
    };
    assert(r@ =~= seq![hex_digit_char(d as nat)]);
    r
}

/// `n` in lowercase hexadecimal.
pub fn hex(n: u64) -> (r: String)
    ensures
        r@ == hex_text(n as nat),
    decreases n,
{
    if n < 16 {
        hex_digit_str(n).to_owned()
    } else {
        let mut text = hex(n / 16);
        text.append(hex_digit_str(n % 16));
        text
    }
}

/// Relies on the `Hash` impl of `str`: feeds the text to the hasher. Nothing is promised of
/// the state it leaves.
#[verifier::external_body]
fn feed_text(hasher: &mut DefaultHasher, text: &str) {
    text.hash(hasher);
}

/// The hash of the text by a hasher made with `DefaultHasher::new`.
fn default_hash(text: &str) -> (r: u64) {
    let mut hasher = DefaultHasher::new();
    feed_text(&mut hasher, text);
    hasher.finish()
}

/// Hash functions over text.
pub struct HashUtils;

impl HashUtils {
    /// A hash of the text.
    pub fn hash_text(text: &str) -> (r: u64) {
        default_hash(text)
    }

    /// A hash of file content, in lowercase hexadecimal; the language does not take part.
    pub fn hash_file_content(content: &str, _language: &Language) -> (r: String)
        ensures
            exists|h: u64| r@ == hex_text(h as nat),
    {
        let h = default_hash(content);
        hex(h)
    }
}

} // verus!
