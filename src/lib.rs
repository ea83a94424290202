//! Source text indexing: byte offsets and ranges, a line index with conversions between
//! byte offsets and line/column positions in UTF-8, UTF-16 and UTF-32 units, line queries
//! that scan the text, and an index of comment ranges with the grouping of comments into
//! blocks; with the types, errors and utilities of the analysis layers around them.
use vstd::prelude::*;

pub mod ai;
pub mod ast;
pub mod comment_ranges;
pub mod config;
pub mod diagnostic;
pub mod document;
pub mod errors;
pub mod fmt_text;
pub mod hash_utils;
pub mod language;
pub mod line_index;
pub mod line_ranges;
pub mod metrics;
pub mod object_pool;
pub mod source_file;
pub mod span;
pub mod symbol;
pub mod symbol_table;
pub mod text_diff;
pub mod text_eq;
pub mod text_map;
pub mod text_model;
pub mod text_size;
pub mod text_utils;
pub mod tree_sitter_parser;
pub mod trivia;
pub mod validation;

verus! {

/// The names of the languages that the library knows how to analyse.
pub fn get_supported_languages() -> (r: Vec<String>)
    ensures
        r@.len() == 5,
        r@[0]@ == "Python"@,
        r@[1]@ == "JSON"@,
        r@[2]@ == "Rust"@,
        r@[3]@ == "JavaScript"@,
        r@[4]@ == "TypeScript"@,
{
    let mut names: Vec<String> = Vec::new();
    names.push("Python".to_owned());
    names.push("JSON".to_owned());
    names.push("Rust".to_owned());
    names.push("JavaScript".to_owned());
    names.push("TypeScript".to_owned());
    names
}

} // verus!
