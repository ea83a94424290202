//! Documents and source texts, identified by file.
use vstd::prelude::*;

use crate::language::Language;

verus! {

/// The identifier of a file.
#[derive(Debug, Clone, PartialEq, Eq, Hash, Default)]
pub struct FileId(pub String);

impl FileId {
    pub fn new(id: &str) -> (r: FileId)
        ensures
            r.0@ == id@,
    {
        FileId(id.to_owned())
    }
}

impl<'a> From<&'a str> for FileId {
    fn from(s: &'a str) -> (r: FileId) {
        FileId(s.to_owned())
    }
}

impl<'a> vstd::std_specs::convert::FromSpecImpl<&'a str> for FileId {
    open spec fn obeys_from_spec() -> bool {
        false
    }

    open spec fn from_spec(s: &'a str) -> FileId {
        vstd::pervasive::arbitrary()
    }
}

impl From<String> for FileId {
    fn from(s: String) -> (r: FileId) {
        FileId(s)
    }
}

impl vstd::std_specs::convert::FromSpecImpl<String> for FileId {
    open spec fn obeys_from_spec() -> bool {
        true
    }

    open spec fn from_spec(s: String) -> FileId {
        FileId(s)
    }
}

/// An open document: its file, text, language and version.
#[derive(Debug, Clone)]
pub struct TextDocument {
    pub file_id: FileId,
    pub content: String,
    pub language: Language,
    pub version: u64,
}

impl TextDocument {
    /// A document at version 1.
    pub fn new(file_id: FileId, content: String, language: Language) -> (r: TextDocument)
        ensures
            r.file_id == file_id,
            r.content == content,
            r.language == language,
            r.version == 1,
    {
        TextDocument { file_id, content, language, version: 1 }
    }

    pub fn with_version(self, version: u64) -> (r: TextDocument)
        ensures
            r.version == version,
            r.file_id == self.file_id,
            r.content == self.content,
            r.language == self.language,
    {
        let mut d = self;
        d.version = version;
        d
    }
}

/// The text of a file in a language.
#[derive(Debug, Clone, PartialEq)]
pub struct SourceCode {
    pub content: String,
    pub language: Language,
    pub file_id: FileId,
}

impl SourceCode {
    pub fn new(content: String, language: Language, file_id: FileId) -> (r: SourceCode)
        ensures
            r.content == content,
            r.language == language,
            r.file_id == file_id,
    {
        SourceCode { content, language, file_id }
    }
}

} // verus!
