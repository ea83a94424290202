//! The languages that sources are written in.
use vstd::prelude::*;

use vstd::string::StringSliceAdditionalSpecFns;
use vstd::utf8::decode_utf8;

use crate::source_file::slice_str;
use crate::text_eq::str_eq;
use crate::text_model::lemma_after_ascii;

verus! {

/// A programming or data language; `Custom` names one registered at run time.
#[derive(Debug, PartialEq, Eq, Hash)]
pub enum Language {
    Python,
    Json,
    Yaml,
    Markdown,
    Rust,
    JavaScript,
    TypeScript,
    Custom(String),
    Unknown,
}

/// The language that a lowercase name or abbreviation denotes, if it is a built-in one.
pub open spec fn builtin_named(name: Seq<char>) -> Option<Language> {
    if name == "python"@ || name == "py"@ {
        Some(Language::Python)
    } else if name == "json"@ {
        Some(Language::Json)
    } else if name == "yaml"@ || name == "yml"@ {
        Some(Language::Yaml)
    } else if name == "markdown"@ || name == "md"@ {
        Some(Language::Markdown)
    } else if name == "rust"@ || name == "rs"@ {
        Some(Language::Rust)
    } else if name == "javascript"@ || name == "js"@ {
        Some(Language::JavaScript)
    } else if name == "typescript"@ || name == "ts"@ {
        Some(Language::TypeScript)
    } else {
        None
    }
}

/// The lowercase form of a text, as `str::to_lowercase` gives it.
pub uninterp spec fn lower_of(s: Seq<char>) -> Seq<char>;

/// Relies on `str::to_lowercase`: the lowercase form of the text, which depends on its
/// characters alone.
#[verifier::external_body]
fn lowercase(s: &str) -> (r: String)
    ensures
        r@ == lower_of(s@),
{
    s.to_lowercase()
}

/// The built-in language that the lowercase name `lower` denotes, if any.
pub fn builtin_language(lower: &str) -> (r: Option<Language>)
    ensures
        r == builtin_named(lower@),
{
    if str_eq(lower, "python") || str_eq(lower, "py") {
        Some(Language::Python)
    } else if str_eq(lower, "json") {
        Some(Language::Json)
    } else if str_eq(lower, "yaml") || str_eq(lower, "yml") {
        Some(Language::Yaml)
    } else if str_eq(lower, "markdown") || str_eq(lower, "md") {
        Some(Language::Markdown)
    } else if str_eq(lower, "rust") || str_eq(lower, "rs") {
        Some(Language::Rust)
    } else if str_eq(lower, "javascript") || str_eq(lower, "js") {
        Some(Language::JavaScript)
    } else if str_eq(lower, "typescript") || str_eq(lower, "ts") {
        Some(Language::TypeScript)
    } else {
        None
    }
}

/// What identifies a language: which one it is, and the name of a custom one.
pub open spec fn language_key(l: Language) -> (int, Seq<char>) {
    match l {
        Language::Python => (0, seq![]),
        Language::Json => (1, seq![]),
        Language::Yaml => (2, seq![]),
        Language::Markdown => (3, seq![]),
        Language::Rust => (4, seq![]),
        Language::JavaScript => (5, seq![]),
        Language::TypeScript => (6, seq![]),
        Language::Custom(name) => (7, name@),
        Language::Unknown => (8, seq![]),
    }
}

impl Clone for Language {
    fn clone(&self) -> (r: Language)
        ensures
            r == *self,
    {
        match self {
            Language::Python => Language::Python,
            Language::Json => Language::Json,
            Language::Yaml => Language::Yaml,
            Language::Markdown => Language::Markdown,
            Language::Rust => Language::Rust,
            Language::JavaScript => Language::JavaScript,
            Language::TypeScript => Language::TypeScript,
            Language::Custom(name) => Language::Custom(name.clone()),
            Language::Unknown => Language::Unknown,
        }
    }
}

/// Whether two languages are the same one.
pub fn same_language(a: &Language, b: &Language) -> (r: bool)
    ensures
        r == (language_key(*a) == language_key(*b)),
{
    match (a, b) {
        (Language::Python, Language::Python) => true,
        (Language::Json, Language::Json) => true,
        (Language::Yaml, Language::Yaml) => true,
        (Language::Markdown, Language::Markdown) => true,
        (Language::Rust, Language::Rust) => true,
        (Language::JavaScript, Language::JavaScript) => true,
        (Language::TypeScript, Language::TypeScript) => true,
        (Language::Custom(x), Language::Custom(y)) => str_eq(x.as_str(), y.as_str()),
        (Language::Unknown, Language::Unknown) => true,
        _ => false,
    }
}

pub open spec fn keys_distinct(e: Seq<(String, Language)>) -> bool {
    forall|i: int, j: int| 0 <= i < j < e.len() ==> #[trigger] e[i].0@ != #[trigger] e[j].0@
}

proof fn lemma_key_unique(e: Seq<(String, Language)>, a: int, b: int)
    requires
        keys_distinct(e),
        0 <= a < e.len(),
        0 <= b < e.len(),
        e[a].0@ == e[b].0@,
    ensures
        a == b,
{
    if a < b {
        assert(e[a].0@ != e[b].0@);
    } else if b < a {
        assert(e[b].0@ != e[a].0@);
    }
}

/// A map from names to languages, kept as pairs with distinct names.
#[derive(Debug)]
pub struct LanguageMap {
    entries: Vec<(String, Language)>,
}

impl LanguageMap {
    #[verifier::type_invariant]
    spec fn distinct(self) -> bool {
        keys_distinct(self.entries@)
    }

    /// The languages stored, in order of first insertion.
    pub closed spec fn spec_values(self) -> Seq<Language> {
        self.entries@.map_values(|e: (String, Language)| e.1)
    }

    /// The language stored under `key`, by its identifying key.
    pub closed spec fn spec_get(self, key: Seq<char>) -> Option<(int, Seq<char>)> {
        if exists|i: int| 0 <= i < self.entries@.len() && #[trigger] self.entries@[i].0@ == key {
            let i = choose|i: int| 0 <= i < self.entries@.len() && #[trigger] self.entries@[i].0@ == key;
            Some(language_key(self.entries@[i].1))
        } else {
            None
        }
    }

    /// Every stored language is under some key.
    pub closed spec fn spec_value_under(self, k: int) -> Seq<char> {
        self.entries@[k].0@
    }

    pub fn new() -> (r: LanguageMap)
        ensures
            forall|k: Seq<char>| r.spec_get(k) is None,
            r.spec_values().len() == 0,
    {
        LanguageMap { entries: Vec::new() }
    }

    /// Stores `value` under `key`, replacing what was there.
    pub fn insert(&mut self, key: String, value: Language)
        ensures
            forall|k: Seq<char>|
                #[trigger] final(self).spec_get(k) == if k == key@ {
                    Some(language_key(value))
                } else {
                    old(self).spec_get(k)
                },
            forall|i: int|
                0 <= i < old(self).spec_values().len() && old(self).spec_value_under(i) != key@
                    ==> final(self).spec_values().contains(#[trigger] old(self).spec_values()[i]),
            final(self).spec_values().contains(value),
            forall|i: int|
                0 <= i < final(self).spec_values().len() ==> #[trigger] final(self).spec_values()[i]
                    == value || old(self).spec_values().contains(final(self).spec_values()[i]),
    {
        proof {
            use_type_invariant(&*self);
        }
        let ghost old_entries = self.entries@;
        let mut entries: Vec<(String, Language)> = Vec::new();
        std::mem::swap(&mut self.entries, &mut entries);
        let mut i: usize = 0;
        while i < entries.len()
            invariant
                entries@ == old_entries,
                old_entries == old(self).entries@,
                self.entries@.len() == 0,
                keys_distinct(old_entries),
                i <= old_entries.len(),
                forall|j: int| 0 <= j < i ==> #[trigger] old_entries[j].0@ != key@,
            decreases old_entries.len() - i,
        {
            if str_eq(entries[i].0.as_str(), key.as_str()) {
                let ghost key_view = key@;
                let ghost value_copy = value;
                entries.set(i, (key, value));
                std::mem::swap(&mut self.entries, &mut entries);
                proof {
                    let e = self.entries@;
                    assert(e.len() == old_entries.len());
                    assert forall|a: int, b: int| 0 <= a < b < e.len() implies #[trigger] e[a].0@
                        != #[trigger] e[b].0@ by {
                        if a != i && b != i {
                            assert(e[a] == old_entries[a] && e[b] == old_entries[b]);
                        }
                    }
                    assert forall|k: Seq<char>| #[trigger] self.spec_get(k) == if k == key_view {
                        Some(language_key(value_copy))
                    } else {
                        old(self).spec_get(k)
                    } by {
                        if k == key_view {
                            assert(e[i as int].0@ == k);
                            let c = choose|c: int| 0 <= c < e.len() && #[trigger] e[c].0@ == k;
                            lemma_key_unique(e, c, i as int);
                        } else if exists|c: int| 0 <= c < e.len() && #[trigger] e[c].0@ == k {
                            let c = choose|c: int| 0 <= c < e.len() && #[trigger] e[c].0@ == k;
                            assert(c != i);
                            assert(old_entries[c] == e[c]);
                            let d = choose|d: int| 0 <= d < old_entries.len() && #[trigger] old_entries[d].0@ == k;
                            lemma_key_unique(old_entries, c, d);
                        } else {
                            assert forall|c: int| 0 <= c < old_entries.len() implies #[trigger] old_entries[c].0@ != k by {
                                if c != i {
                                    assert(e[c] == old_entries[c]);
                                }
                            }
                        }
                    }
                    let vals = self.spec_values();
                    let old_vals = old(self).spec_values();
                    assert(vals[i as int] == value_copy);
                    assert forall|j: int|
                        0 <= j < old_vals.len() && old(self).spec_value_under(j) != key_view
                            implies vals.contains(#[trigger] old_vals[j]) by {
                        assert(j != i);
                        assert(vals[j] == old_vals[j]);
                    }
                    assert forall|j: int| 0 <= j < vals.len() implies #[trigger] vals[j]
                        == value_copy || old_vals.contains(vals[j]) by {
                        if j != i {
                            assert(vals[j] == old_vals[j]);
                        }
                    }
                }
                return;
            }
            i += 1;
        }
        let ghost key_view = key@;
        let ghost value_copy = value;
        entries.push((key, value));
        std::mem::swap(&mut self.entries, &mut entries);
        proof {
            let e = self.entries@;
            let n = old_entries.len() as int;
            assert forall|a: int, b: int| 0 <= a < b < e.len() implies #[trigger] e[a].0@
                != #[trigger] e[b].0@ by {
                if b == n {
                    assert(e[a] == old_entries[a]);
                } else {
                    assert(e[a] == old_entries[a] && e[b] == old_entries[b]);
                }
            }
            assert forall|k: Seq<char>| #[trigger] self.spec_get(k) == if k == key_view {
                Some(language_key(value_copy))
            } else {
                old(self).spec_get(k)
            } by {
                if k == key_view {
                    assert(e[n].0@ == k);
                    let c = choose|c: int| 0 <= c < e.len() && #[trigger] e[c].0@ == k;
                    lemma_key_unique(e, c, n);
                } else if exists|c: int| 0 <= c < e.len() && #[trigger] e[c].0@ == k {
                    let c = choose|c: int| 0 <= c < e.len() && #[trigger] e[c].0@ == k;
                    assert(c != n);
                    assert(old_entries[c] == e[c]);
                    let d = choose|d: int| 0 <= d < old_entries.len() && #[trigger] old_entries[d].0@ == k;
                    lemma_key_unique(old_entries, c, d);
                } else {
                    assert forall|c: int| 0 <= c < old_entries.len() implies #[trigger] old_entries[c].0@ != k by {
                        assert(e[c] == old_entries[c]);
                    }
                }
            }
            let vals = self.spec_values();
            let old_vals = old(self).spec_values();
            assert(vals[n] == value_copy);
            assert forall|j: int|
                0 <= j < old_vals.len() && old(self).spec_value_under(j) != key_view
                    implies vals.contains(#[trigger] old_vals[j]) by {
                assert(vals[j] == old_vals[j]);
            }
            assert forall|j: int| 0 <= j < vals.len() implies #[trigger] vals[j]
                == value_copy || old_vals.contains(vals[j]) by {
                if j != n {
                    assert(vals[j] == old_vals[j]);
                }
            }
        }
    }

    /// The language stored under `key`.
    pub fn get(&self, key: &str) -> (r: Option<Language>)
        ensures
            r matches Some(l) ==> self.spec_get(key@) == Some(language_key(l)),
            r is None ==> self.spec_get(key@) is None,
    {
        proof {
            use_type_invariant(self);
        }
        let mut i: usize = 0;
        while i < self.entries.len()
            invariant
                i <= self.entries@.len(),
                keys_distinct(self.entries@),
                forall|j: int| 0 <= j < i ==> #[trigger] self.entries@[j].0@ != key@,
            decreases self.entries@.len() - i,
        {
            if str_eq(self.entries[i].0.as_str(), key) {
                proof {
                    let c = choose|c: int| 0 <= c < self.entries@.len() && #[trigger] self.entries@[c].0@ == key@;
                    lemma_key_unique(self.entries@, c, i as int);
                }
                return Some(self.entries[i].1.clone());
            }
            i += 1;
        }
        None
    }

    /// The stored languages.
    pub fn values(&self) -> (r: Vec<Language>)
        ensures
            r@ == self.spec_values(),
    {
        let mut out: Vec<Language> = Vec::new();
        let mut i: usize = 0;
        while i < self.entries.len()
            invariant
                i <= self.entries@.len(),
                out@ == self.entries@.take(i as int).map_values(|e: (String, Language)| e.1),
            decreases self.entries@.len() - i,
        {
            out.push(self.entries[i].1.clone());
            proof {
                assert(out@ =~= self.entries@.take(i + 1).map_values(|e: (String, Language)| e.1));
            }
            i += 1;
        }
        proof {
            assert(self.entries@.take(i as int) =~= self.entries@);
        }
        out
    }
}

impl Language {
    /// The language named `name`, whose lowercase form is `lower`: a built-in one, or else a
    /// custom language with the name as given.
    pub fn from_lowercase_name(lower: &str, name: &str) -> (r: Language)
        ensures
            builtin_named(lower@) matches Some(l) ==> r == l,
            builtin_named(lower@) is None ==> (r matches Language::Custom(n) && n@ == name@),
    {
        match builtin_language(lower) {
            Some(language) => language,
            None => Language::Custom(name.to_owned()),
        }
    }

    /// The language named `s`, in any case: a built-in one, or else a custom language.
    pub fn from_string(s: &str) -> (r: Language)
        ensures
            builtin_named(lower_of(s@)) matches Some(l) ==> r == l,
            builtin_named(lower_of(s@)) is None ==> (r matches Language::Custom(n) && n@ == s@),
    {
        let lower = lowercase(s);
        Language::from_lowercase_name(lower.as_str(), s)
    }

    /// The identifier of the language.
    pub fn as_string(&self) -> (r: String)
        ensures
            r@ == match self {
                Language::Python => "python"@,
                Language::Json => "json"@,
                Language::Yaml => "yaml"@,
                Language::Markdown => "markdown"@,
                Language::Rust => "rust"@,
                Language::JavaScript => "javascript"@,
                Language::TypeScript => "typescript"@,
                Language::Custom(name) => name@,
                Language::Unknown => "unknown"@,
            },
    {
        match self {
            Language::Python => "python".to_owned(),
            Language::Json => "json".to_owned(),
            Language::Yaml => "yaml".to_owned(),
            Language::Markdown => "markdown".to_owned(),
            Language::Rust => "rust".to_owned(),
            Language::JavaScript => "javascript".to_owned(),
            Language::TypeScript => "typescript".to_owned(),
            Language::Custom(name) => name.clone(),
            Language::Unknown => "unknown".to_owned(),
        }
    }

    pub fn is_builtin(&self) -> (r: bool)
        ensures
            r == !(self is Custom),
    {
        !matches!(self, Language::Custom(_))
    }

    pub fn is_custom(&self) -> (r: bool)
        ensures
            r == (self is Custom),
    {
        matches!(self, Language::Custom(_))
    }
}

/// The language of each default extension.
pub open spec fn default_extension(k: Seq<char>) -> Option<(int, Seq<char>)> {
    if k == "tsx"@ || k == "ts"@ {
        Some(language_key(Language::TypeScript))
    } else if k == "js"@ {
        Some(language_key(Language::JavaScript))
    } else if k == "rs"@ {
        Some(language_key(Language::Rust))
    } else if k == "markdown"@ || k == "md"@ {
        Some(language_key(Language::Markdown))
    } else if k == "yml"@ || k == "yaml"@ {
        Some(language_key(Language::Yaml))
    } else if k == "json"@ {
        Some(language_key(Language::Json))
    } else if k == "py"@ {
        Some(language_key(Language::Python))
    } else {
        None
    }
}

/// The language of each default file name.
pub open spec fn default_filename(k: Seq<char>) -> Option<(int, Seq<char>)> {
    if k == "README"@ {
        Some(language_key(Language::Markdown))
    } else if k == "Makefile"@ {
        Some(language_key(Language::Unknown))
    } else if k == "Dockerfile"@ {
        Some(language_key(Language::Yaml))
    } else {
        None
    }
}

/// The language found under `k`, or the unknown language.
pub open spec fn or_unknown(found: Option<(int, Seq<char>)>) -> (int, Seq<char>) {
    match found {
        Some(k) => k,
        None => language_key(Language::Unknown),
    }
}

/// Where the last dot-separated part of a name starts: after its last `.`, or at its start.
pub open spec fn segment_start(b: Seq<u8>, n: int) -> int
    decreases n,
{
    if n <= 0 {
        0
    } else if b[n - 1] == 46 {
        n
    } else {
        segment_start(b, n - 1)
    }
}

/// The last dot-separated part of a name: its extension, or the whole name without a dot.
pub open spec fn last_segment(b: Seq<u8>) -> Seq<char> {
    decode_utf8(b.subrange(segment_start(b, b.len() as int), b.len() as int))
}

proof fn lemma_segment_start(b: Seq<u8>, n: int)
    requires
        0 <= n <= b.len(),
    ensures
        0 <= segment_start(b, n) <= n,
        segment_start(b, n) == 0 || b[segment_start(b, n) - 1] == 46,
    decreases n,
{
    if n > 0 && b[n - 1] != 46 {
        lemma_segment_start(b, n - 1);
    }
}

/// The part of `name` after its last `.`, or all of it.
fn last_segment_of(name: &str) -> (r: &str)
    ensures
        r@ == last_segment(name.spec_bytes()),
{
    broadcast use vstd::utf8::group_utf8_lib;

    let bytes = name.as_bytes();
    let ghost b = bytes@;
    let mut n = bytes.len();
    while n > 0 && bytes[n - 1] != 46
        invariant
            b == bytes@,
            b == name.spec_bytes(),
            n <= b.len(),
            segment_start(b, n as int) == segment_start(b, b.len() as int),
        decreases n,
    {
        n -= 1;
    }
    proof {
        lemma_segment_start(b, b.len() as int);
        if n > 0 && n < b.len() {
            lemma_after_ascii(b, n - 1);
        }
        if n == 0 && b.len() > 0 {
            assert(vstd::utf8::valid_first_scalar(b));
        }
    }
    let r = slice_str(name, n, bytes.len());
    proof {
        assert(decode_utf8(r.spec_bytes()) == r@);
    }
    r
}

/// The mappings from file extensions and file names to languages.
#[derive(Debug)]
pub struct LanguageConfig {
    pub extensions: LanguageMap,
    pub filenames: LanguageMap,
    pub shebangs: Vec<(String, Vec<String>)>,
    pub language_id: Option<String>,
}

impl LanguageConfig {
    /// The default mappings: the extensions of the built-in languages, and a few file names.
    pub fn new() -> (r: LanguageConfig)
        ensures
            forall|k: Seq<char>| #[trigger] r.extensions.spec_get(k) == default_extension(k),
            forall|k: Seq<char>| #[trigger] r.filenames.spec_get(k) == default_filename(k),
            r.shebangs@.len() == 0,
            r.language_id is None,
    {
        let mut extensions = LanguageMap::new();
        extensions.insert("py".to_owned(), Language::Python);
        extensions.insert("json".to_owned(), Language::Json);
        extensions.insert("yaml".to_owned(), Language::Yaml);
        extensions.insert("yml".to_owned(), Language::Yaml);
        extensions.insert("md".to_owned(), Language::Markdown);
        extensions.insert("markdown".to_owned(), Language::Markdown);
        extensions.insert("rs".to_owned(), Language::Rust);
        extensions.insert("js".to_owned(), Language::JavaScript);
        extensions.insert("ts".to_owned(), Language::TypeScript);
        extensions.insert("tsx".to_owned(), Language::TypeScript);
        let mut filenames = LanguageMap::new();
        filenames.insert("Dockerfile".to_owned(), Language::Yaml);
        filenames.insert("Makefile".to_owned(), Language::Unknown);
        filenames.insert("README".to_owned(), Language::Markdown);
        LanguageConfig { extensions, filenames, shebangs: Vec::new(), language_id: None }
    }

    /// Maps the extension `ext`, in lowercase, to `language`.
    pub fn add_extension(&mut self, ext: &str, language: Language)
        ensures
            forall|k: Seq<char>|
                #[trigger] final(self).extensions.spec_get(k) == if k == lower_of(ext@) {
                    Some(language_key(language))
                } else {
                    old(self).extensions.spec_get(k)
                },
            forall|k: Seq<char>| #[trigger] final(self).filenames.spec_get(k) == old(self).filenames.spec_get(k),
    {
        self.extensions.insert(lowercase(ext), language);
    }

    /// Maps the file name `filename` to `language`.
    pub fn add_filename(&mut self, filename: &str, language: Language)
        ensures
            forall|k: Seq<char>|
                #[trigger] final(self).filenames.spec_get(k) == if k == filename@ {
                    Some(language_key(language))
                } else {
                    old(self).filenames.spec_get(k)
                },
            forall|k: Seq<char>| #[trigger] final(self).extensions.spec_get(k) == old(self).extensions.spec_get(k),
    {
        self.filenames.insert(filename.to_owned(), language);
    }

    /// Maps each of `extensions` and `filenames` to the custom language `name`.
    pub fn register_custom_language(&mut self, name: &str, extensions: &[&str], filenames: &[&str])
        ensures
            forall|i: int|
                0 <= i < extensions@.len() ==> #[trigger] final(self).extensions.spec_get(
                    lower_of(extensions@[i]@),
                ) == Some((7int, name@)),
            forall|k: Seq<char>|
                (forall|i: int| 0 <= i < extensions@.len() ==> k != lower_of(#[trigger] extensions@[i]@))
                    ==> #[trigger] final(self).extensions.spec_get(k) == old(self).extensions.spec_get(k),
            forall|i: int|
                0 <= i < filenames@.len() ==> #[trigger] final(self).filenames.spec_get(filenames@[i]@)
                    == Some((7int, name@)),
            forall|k: Seq<char>|
                (forall|i: int| 0 <= i < filenames@.len() ==> k != (#[trigger] filenames@[i])@)
                    ==> #[trigger] final(self).filenames.spec_get(k) == old(self).filenames.spec_get(k),
    {
        let mut i: usize = 0;
        while i < extensions.len()
            invariant
                i <= extensions@.len(),
                forall|j: int|
                    0 <= j < i ==> #[trigger] self.extensions.spec_get(lower_of(extensions@[j]@))
                        == Some((7int, name@)),
                forall|k: Seq<char>|
                    (forall|j: int| 0 <= j < i ==> k != lower_of(#[trigger] extensions@[j]@))
                        ==> #[trigger] self.extensions.spec_get(k) == old(self).extensions.spec_get(k),
                forall|k: Seq<char>| #[trigger] self.filenames.spec_get(k) == old(self).filenames.spec_get(k),
            decreases extensions@.len() - i,
        {
            let custom = Language::Custom(name.to_owned());
            self.add_extension(extensions[i], custom);
            i += 1;
        }
        let mut i: usize = 0;
        while i < filenames.len()
            invariant
                i <= filenames@.len(),
                forall|j: int|
                    0 <= j < extensions@.len() ==> #[trigger] self.extensions.spec_get(
                        lower_of(extensions@[j]@),
                    ) == Some((7int, name@)),
                forall|k: Seq<char>|
                    (forall|j: int| 0 <= j < extensions@.len() ==> k != lower_of(#[trigger] extensions@[j]@))
                        ==> #[trigger] self.extensions.spec_get(k) == old(self).extensions.spec_get(k),
                forall|j: int|
                    0 <= j < i ==> #[trigger] self.filenames.spec_get(filenames@[j]@) == Some((7int, name@)),
                forall|k: Seq<char>|
                    (forall|j: int| 0 <= j < i ==> k != (#[trigger] filenames@[j])@)
                        ==> #[trigger] self.filenames.spec_get(k) == old(self).filenames.spec_get(k),
            decreases filenames@.len() - i,
        {
            let custom = Language::Custom(name.to_owned());
            self.add_filename(filenames[i], custom);
            i += 1;
        }
    }

    /// The language of an extension already in lowercase; the unknown language when none
    /// is mapped.
    pub fn from_lowercase_extension(&self, lower: &str) -> (r: Language)
        ensures
            language_key(r) == or_unknown(self.extensions.spec_get(lower@)),
    {
        match self.extensions.get(lower) {
            Some(language) => language,
            None => Language::Unknown,
        }
    }

    /// The language of the extension `ext`, in any case.
    pub fn from_extension(&self, ext: &str) -> (r: Language)
        ensures
            language_key(r) == or_unknown(self.extensions.spec_get(lower_of(ext@))),
    {
        let lower = lowercase(ext);
        self.from_lowercase_extension(lower.as_str())
    }

    /// The language of a file: by its exact name, or else by the part after its last `.`.
    pub fn from_filename(&self, filename: &str) -> (r: Language)
        ensures
            self.filenames.spec_get(filename@) matches Some(k) ==> language_key(r) == k,
            self.filenames.spec_get(filename@) is None ==> language_key(r) == or_unknown(
                self.extensions.spec_get(lower_of(last_segment(filename.spec_bytes()))),
            ),
    {
        if let Some(language) = self.filenames.get(filename) {
            return language;
        }
        let ext = last_segment_of(filename);
        self.from_extension(ext)
    }

    /// The language of a file: by the part after its last `.` as written, or else by its
    /// exact name; `None` when neither is mapped.
    pub fn detect_language(&self, filename: &str) -> (r: Option<Language>)
        ensures
            ({
                let by_ext = self.extensions.spec_get(last_segment(filename.spec_bytes()));
                let by_name = self.filenames.spec_get(filename@);
                match r {
                    Some(l) => (by_ext is Some && by_ext == Some(language_key(l))) || (by_ext is None
                        && by_name == Some(language_key(l))),
                    None => by_ext is None && by_name is None,
                }
            }),
    {
        let ext = last_segment_of(filename);
        if let Some(language) = self.extensions.get(ext) {
            return Some(language);
        }
        if let Some(language) = self.filenames.get(filename) {
            return Some(language);
        }
        None
    }

    /// The built-in languages, then each custom language that an extension maps to, once.
    pub fn get_supported_languages(&self) -> (r: Vec<Language>)
        ensures
            r@.len() >= 7,
            forall|i: int| 0 <= i < 7 ==> #[trigger] language_key(r@[i]) == (i, Seq::<char>::empty()),
            forall|i: int|
                0 <= i < self.extensions.spec_values().len() && (#[trigger] self.extensions.spec_values()[i]) is Custom
                    ==> exists|j: int| 0 <= j < r@.len() && language_key(#[trigger] r@[j]) == language_key(
                    self.extensions.spec_values()[i],
                ),
            forall|j: int|
                7 <= j < r@.len() ==> (#[trigger] r@[j]) is Custom && exists|i: int|
                    0 <= i < self.extensions.spec_values().len() && language_key(
                        #[trigger] self.extensions.spec_values()[i],
                    ) == language_key(r@[j]),
    {
        let mut languages: Vec<Language> = Vec::new();
        languages.push(Language::Python);
        languages.push(Language::Json);
        languages.push(Language::Yaml);
        languages.push(Language::Markdown);
        languages.push(Language::Rust);
        languages.push(Language::JavaScript);
        languages.push(Language::TypeScript);
        let values = self.extensions.values();
        let ghost vals = self.extensions.spec_values();
        let mut i: usize = 0;
        while i < values.len()
            invariant
                values@ == vals,
                vals == self.extensions.spec_values(),
                i <= vals.len(),
                languages@.len() >= 7,
                forall|a: int| 0 <= a < 7 ==> #[trigger] language_key(languages@[a]) == (a, Seq::<char>::empty()),
                forall|a: int|
                    0 <= a < i && (#[trigger] vals[a]) is Custom ==> exists|j: int|
                        0 <= j < languages@.len() && language_key(#[trigger] languages@[j])
                            == language_key(vals[a]),
                forall|j: int|
                    7 <= j < languages@.len() ==> (#[trigger] languages@[j]) is Custom && exists|a: int|
                        0 <= a < vals.len() && language_key(#[trigger] vals[a]) == language_key(
                            languages@[j],
                        ),
            decreases vals.len() - i,
        {
            let lang = &values[i];
            if lang.is_custom() {
                let mut found = false;
                let mut j: usize = 0;
                while j < languages.len() && !found
                    invariant
                        j <= languages@.len(),
                        found ==> exists|x: int|
                            0 <= x < languages@.len() && language_key(#[trigger] languages@[x])
                                == language_key(*lang),
                    decreases languages@.len() - j,
                {
                    if same_language(&languages[j], lang) {
                        found = true;
                    }
                    j += 1;
                }
                if !found {
                    let ghost before = languages@;
                    languages.push(lang.clone());
                    proof {
                        let n = before.len() as int;
                        assert(languages@[n] == vals[i as int]);
                        assert forall|a: int|
                            0 <= a < i + 1 && (#[trigger] vals[a]) is Custom implies exists|x: int|
                                0 <= x < languages@.len() && language_key(#[trigger] languages@[x])
                                    == language_key(vals[a]) by {
                            if a == i {
                                assert(language_key(languages@[n]) == language_key(vals[a]));
                            } else {
                                let x = choose|x: int|
                                    0 <= x < before.len() && language_key(#[trigger] before[x])
                                        == language_key(vals[a]);
                                assert(languages@[x] == before[x]);
                            }
                        }
                        assert forall|x: int| 7 <= x < languages@.len() implies (#[trigger] languages@[x]) is Custom
                            && exists|a: int|
                            0 <= a < vals.len() && language_key(#[trigger] vals[a]) == language_key(
                                languages@[x],
                            ) by {
                            if x == n {
                                assert(language_key(vals[i as int]) == language_key(languages@[x]));
                            } else {
                                assert(languages@[x] == before[x]);
                            }
                        }
                        assert forall|a: int| 0 <= a < 7 implies #[trigger] language_key(languages@[a]) == (
                            a,
                            Seq::<char>::empty(),
                        ) by {
                            assert(languages@[a] == before[a]);
                        }
                    }
                }
            }
            i += 1;
        }
        languages
    }
}

impl Default for LanguageConfig {
    fn default() -> (r: LanguageConfig)
        ensures
            forall|k: Seq<char>| #[trigger] r.extensions.spec_get(k) == default_extension(k),
            forall|k: Seq<char>| #[trigger] r.filenames.spec_get(k) == default_filename(k),
            r.shebangs@.len() == 0,
            r.language_id is None,
    {
        LanguageConfig::new()
    }
}

impl Language {
    /// The language of the extension `ext` under the default mappings.
    pub fn from_extension(ext: &str) -> (r: Language)
        ensures
            language_key(r) == or_unknown(default_extension(lower_of(ext@))),
    {
        LanguageConfig::new().from_extension(ext)
    }

    /// The language of a file under the default mappings.
    pub fn from_filename(filename: &str) -> (r: Language)
        ensures
            default_filename(filename@) matches Some(k) ==> language_key(r) == k,
            default_filename(filename@) is None ==> language_key(r) == or_unknown(
                default_extension(lower_of(last_segment(filename.spec_bytes()))),
            ),
    {
        LanguageConfig::new().from_filename(filename)
    }

    /// Registration of an extension for all callers: the default mappings are fixed, so this
    /// changes nothing; register on a [`LanguageConfig`] instead.
    pub fn register_extension(_ext: &str, _language: Language) {
    }

    /// Registration of a custom language for all callers: the default mappings are fixed, so
    /// this changes nothing; register on a [`LanguageConfig`] instead.
    pub fn register_custom_language(_name: &str, _extensions: &[&str], _filenames: &[&str]) {
    }
}

} // verus!
