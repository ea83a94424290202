//! Configuration files: their formats, the errors of their validation, and the reading and
//! writing of the `key = value` and `key: value` formats.
use std::path::PathBuf;
use vstd::prelude::*;
use vstd::string::{StringExecFns, StringSliceAdditionalSpecFns};
use vstd::utf8::decode_utf8;

use crate::source_file::slice_str;
use crate::text_diff::{line_end_at, line_ranges, line_start_at, lines_from};
use crate::text_utils::is_whitespace_char;

verus! {

#[verifier::external_type_specification]
#[verifier::external_body]
pub struct ExPathBuf(std::path::PathBuf);

/// A validation error of a configuration.
#[derive(Debug, Clone)]
pub enum ConfigValidationError {
    InvalidValue { key: String, message: String },
    MissingKey { key: String },
    SchemaError { message: String },
    TypeMismatch { key: String, expected: String, actual: String },
}

impl ConfigValidationError {
    /// The message of the error.
    pub fn to_string(&self) -> (r: String)
        ensures
            r@ == match self {
                ConfigValidationError::InvalidValue { key, message } => "Invalid value for key '"@
                    + key@ + "': "@ + message@,
                ConfigValidationError::MissingKey { key } => "Missing required key: "@ + key@,
                ConfigValidationError::SchemaError { message } => "Schema validation failed: "@
                    + message@,
                ConfigValidationError::TypeMismatch { key, expected, actual } =>
                    "Type mismatch for key '"@ + key@ + "': expected "@ + expected@ + ", got "@
                    + actual@,
            },
    {
        match self {
            ConfigValidationError::InvalidValue { key, message } => {
                let mut m = "Invalid value for key '".to_owned();
                m.append(key.as_str());
                m.append("': ");
                m.append(message.as_str());
                m
            },
            ConfigValidationError::MissingKey { key } => {
                let mut m = "Missing required key: ".to_owned();
                m.append(key.as_str());
                m
            },
            ConfigValidationError::SchemaError { message } => {
                let mut m = "Schema validation failed: ".to_owned();
                m.append(message.as_str());
                m
            },
            ConfigValidationError::TypeMismatch { key, expected, actual } => {
                let mut m = "Type mismatch for key '".to_owned();
                m.append(key.as_str());
                m.append("': expected ");
                m.append(expected.as_str());
                m.append(", got ");
                m.append(actual.as_str());
                m
            },
        }
    }
}

#[verifier::external_type_specification]
#[verifier::external_body]
pub struct ExSystemTime(std::time::SystemTime);

/// Counts and records of a configuration.
#[derive(Debug, Clone)]
pub struct ConfigStats {
    pub total_keys: usize,
    pub loaded_files: Vec<PathBuf>,
    pub last_modified: Option<std::time::SystemTime>,
    pub validation_errors: Vec<ConfigValidationError>,
}

impl Default for ConfigStats {
    /// No keys, no files, no modification, no errors.
    fn default() -> (r: ConfigStats)
        ensures
            r.total_keys == 0,
            r.loaded_files@.len() == 0,
            r.last_modified is None,
            r.validation_errors@.len() == 0,
    {
        ConfigStats {
            total_keys: 0,
            loaded_files: Vec::new(),
            last_modified: None,
            validation_errors: Vec::new(),
        }
    }
}

/// The format of a configuration file.
#[derive(Debug, Clone, Copy, PartialEq, Eq, Structural)]
pub enum ConfigFormat {
    Json,
    Yaml,
    Toml,
    Ini,
}

/// A configuration kept in a file of some format.
pub struct FileConfigProvider {
    path: PathBuf,
    format: ConfigFormat,
}

impl FileConfigProvider {
    pub closed spec fn spec_format(&self) -> ConfigFormat {
        self.format
    }

    pub fn new(path: PathBuf, format: ConfigFormat) -> (r: FileConfigProvider)
        ensures
            r.spec_format() == format,
    {
        FileConfigProvider { path, format }
    }

    pub fn path(&self) -> (r: &PathBuf) {
        &self.path
    }

    pub fn format(&self) -> (r: ConfigFormat)
        ensures
            r == self.spec_format(),
    {
        self.format
    }

    /// The name of this kind of provider.
    pub fn name(&self) -> (r: &str)
        ensures
            r@ == "file"@,
    {
        "file"
    }

    /// The separator between key and value in the lines of the format: `:` for YAML, `=` for
    /// TOML and INI; JSON has no such lines.
    pub fn separator(&self) -> (r: Option<char>)
        ensures
            r == match self.spec_format() {
                ConfigFormat::Json => None,
                ConfigFormat::Yaml => Some(':'),
                _ => Some('='),
            },
    {
        match self.format {
            ConfigFormat::Json => None,
            ConfigFormat::Yaml => Some(':'),
            _ => Some('='),
        }
    }
}

impl FileConfigProvider {
    /// What stands between key and value when the format's lines are written: `: ` for YAML,
    /// ` = ` for TOML, `=` for INI; JSON has no such lines.
    pub fn written_separator(&self) -> (r: Option<&'static str>)
        ensures
            match self.spec_format() {
                ConfigFormat::Json => r is None,
                ConfigFormat::Yaml => r matches Some(t) && t@ == ": "@,
                ConfigFormat::Toml => r matches Some(t) && t@ == " = "@,
                ConfigFormat::Ini => r matches Some(t) && t@ == "="@,
            },
    {
        match self.format {
            ConfigFormat::Json => None,
            ConfigFormat::Yaml => Some(": "),
            ConfigFormat::Toml => Some(" = "),
            ConfigFormat::Ini => Some("="),
        }
    }
}

/// The text without its leading characters with the Unicode `White_Space` property.
pub open spec fn trim_start_of(s: Seq<char>) -> Seq<char>
    decreases s.len(),
{
    if s.len() > 0 && is_whitespace_char(s[0]) {
        trim_start_of(s.drop_first())
    } else {
        s
    }
}

/// The text without its trailing characters with the Unicode `White_Space` property.
pub open spec fn trim_end_of(s: Seq<char>) -> Seq<char>
    decreases s.len(),
{
    if s.len() > 0 && is_whitespace_char(s.last()) {
        trim_end_of(s.drop_last())
    } else {
        s
    }
}

/// The text without the whitespace at its ends.
pub open spec fn trim_of(s: Seq<char>) -> Seq<char> {
    trim_end_of(trim_start_of(s))
}

/// Relies on `str::trim`: the text without its leading and trailing characters with the
/// Unicode `White_Space` property.
#[verifier::external_body]
fn trimmed(s: &str) -> (r: &str)
    ensures
        r@ == trim_of(s@),
{
    s.trim()
}

/// The offset of the first `sep` byte in `[s, e)`, if any.
pub open spec fn first_separator(b: Seq<u8>, s: int, e: int, sep: u8) -> Option<int>
    decreases e - s,
{
    if s >= e {
        None
    } else if b[s] == sep {
        Some(s)
    } else {
        first_separator(b, s + 1, e, sep)
    }
}

/// The `(key, value)` pairs of the first `k` lines: each line that holds the separator
/// splits at its first one, and both sides are trimmed.
pub open spec fn key_values_of(b: Seq<u8>, sep: u8, k: int) -> Seq<(Seq<char>, Seq<char>)>
    decreases k,
{
    if k <= 0 {
        seq![]
    } else {
        let before = key_values_of(b, sep, k - 1);
        let s = line_start_at(b, k - 1);
        let e = line_end_at(b, k - 1);
        match first_separator(b, s, e, sep) {
            Some(p) => before.push(
                (trim_of(decode_utf8(b.subrange(s, p))), trim_of(decode_utf8(b.subrange(p + 1, e)))),
            ),
            None => before,
        }
    }
}

/// The `key = value` pairs of `content`, for an ASCII separator `sep`: each line that holds
/// `sep` gives the trimmed text before its first `sep` and the trimmed text after it.
pub fn parse_key_values(content: &str, sep: u8) -> (r: Vec<(String, String)>)
    requires
        sep < 0x80,
    ensures
        r@.len() == key_values_of(content.spec_bytes(), sep, lines_from(content.spec_bytes(), 0) as int).len(),
        forall|i: int|
            0 <= i < r@.len() ==> ((#[trigger] r@[i]).0@, r@[i].1@) == key_values_of(
                content.spec_bytes(),
                sep,
                lines_from(content.spec_bytes(), 0) as int,
            )[i],
{
    broadcast use vstd::utf8::group_utf8_lib;

    let ghost b = content.spec_bytes();
    let bytes = content.as_bytes();
    let lines = line_ranges(content);
    let mut out: Vec<(String, String)> = Vec::new();
    let mut k: usize = 0;
    while k < lines.len()
        invariant
            b == bytes@,
            b == content.spec_bytes(),
            sep < 0x80,
            lines@.len() == lines_from(b, 0),
            forall|t: int|
                0 <= t < lines@.len() ==> (#[trigger] lines@[t]).0 == line_start_at(b, t)
                    && lines@[t].1 == line_end_at(b, t) && lines@[t].0 <= lines@[t].1 <= b.len()
                    && crate::text_model::on_char_boundary(b, lines@[t].0 as int)
                    && crate::text_model::on_char_boundary(b, lines@[t].1 as int),
            k <= lines@.len(),
            out@.len() == key_values_of(b, sep, k as int).len(),
            forall|i: int|
                0 <= i < out@.len() ==> ((#[trigger] out@[i]).0@, out@[i].1@) == key_values_of(
                    b,
                    sep,
                    k as int,
                )[i],
        decreases lines@.len() - k,
    {
        let (s, e) = lines[k];
        let mut p = s;
        while p < e && bytes[p] != sep
            invariant
                b == bytes@,
                s <= p <= e <= b.len(),
                first_separator(b, p as int, e as int, sep) == first_separator(
                    b,
                    s as int,
                    e as int,
                    sep,
                ),
            decreases e - p,
        {
            p += 1;
        }
        if p < e {
            proof {
                vstd::utf8::encode_utf8_valid_utf8(content@);
                assert(crate::text_model::on_char_boundary(b, p as int));
                assert(crate::text_model::on_char_boundary(b, p + 1)) by {
                    if p + 1 < b.len() {
                        crate::text_model::lemma_after_ascii(b, p as int);
                    }
                }
            }
            let key_text = slice_str(content, s, p);
            let value_text = slice_str(content, p + 1, e);
            let key = trimmed(key_text).to_owned();
            let value = trimmed(value_text).to_owned();
            proof {
                vstd::utf8::encode_utf8_decode_utf8(key_text@);
                vstd::utf8::encode_utf8_decode_utf8(value_text@);
            }
            let ghost before = out@;
            out.push((key, value));
            proof {
                assert forall|i: int| 0 <= i < out@.len() implies ((#[trigger] out@[i]).0@, out@[i].1@)
                    == key_values_of(b, sep, k + 1)[i] by {
                    if i < before.len() {
                        assert(out@[i] == before[i]);
                    }
                }
            }
        }
        k += 1;
    }
    out
}

/// The lines `key{sep}value` of the pairs `p`, joined by `\n`.
pub open spec fn formatted_pairs(p: Seq<(String, String)>, sep: Seq<char>) -> Seq<char>
    decreases p.len(),
{
    if p.len() == 0 {
        seq![]
    } else {
        let before = formatted_pairs(p.drop_last(), sep);
        let line = p.last().0@ + sep + p.last().1@;
        if p.len() > 1 {
            before + "\n"@ + line
        } else {
            line
        }
    }
}

/// The lines `key{sep}value` of the pairs, joined by `\n`.
pub fn format_key_values(pairs: &Vec<(String, String)>, sep: &str) -> (r: String)
    ensures
        r@ == formatted_pairs(pairs@, sep@),
{
    let mut text = String::new();
    let mut i: usize = 0;
    assert(pairs@.take(0) =~= Seq::<(String, String)>::empty());
    while i < pairs.len()
        invariant
            i <= pairs@.len(),
            text@ == formatted_pairs(pairs@.take(i as int), sep@),
        decreases pairs@.len() - i,
    {
        let ghost before = text@;
        if i > 0 {
            text.append("\n");
        }
        text.append(pairs[i].0.as_str());
        text.append(sep);
        text.append(pairs[i].1.as_str());
        proof {
            let t = pairs@.take(i + 1);
            assert(t.drop_last() =~= pairs@.take(i as int));
            assert(t.last() == pairs@[i as int]);
            if i > 0 {
                assert(text@ =~= before + "\n"@ + (t.last().0@ + sep@ + t.last().1@));
            } else {
                assert(before =~= Seq::<char>::empty());
                assert(text@ =~= t.last().0@ + sep@ + t.last().1@);
            }
        }
        i += 1;
    }
    assert(pairs@.take(i as int) =~= pairs@);
    text
}

} // verus!
