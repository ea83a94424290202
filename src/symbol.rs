//! Symbols defined in source files and references to them.
use vstd::prelude::*;

use crate::document::FileId;
use crate::span::Span;

verus! {

/// What a symbol is.
#[derive(Debug, Clone, Copy, PartialEq, Eq, Hash, Structural)]
pub enum SymbolKind {
    Function,
    Class,
    Variable,
    Module,
    Import,
    Comment,
    String,
    Number,
    Keyword,
    Operator,
    Unknown,
}

/// A named entity defined at a span of a file, possibly in a scope.
#[derive(Debug, Clone, PartialEq)]
pub struct Symbol {
    pub id: String,
    pub name: String,
    pub kind: SymbolKind,
    pub span: Span,
    pub file_id: FileId,
    pub scope_id: Option<String>,
}

impl Symbol {
    /// A symbol outside any scope.
    pub fn new(id: String, name: String, kind: SymbolKind, span: Span, file_id: FileId) -> (r:
        Symbol)
        ensures
            r.id == id,
            r.name == name,
            r.kind == kind,
            r.span == span,
            r.file_id == file_id,
            r.scope_id is None,
    {
        Symbol { id, name, kind, span, file_id, scope_id: None }
    }

    pub fn with_scope(self, scope_id: String) -> (r: Symbol)
        ensures
            r.scope_id == Some(scope_id),
            r.id == self.id,
            r.name == self.name,
            r.kind == self.kind,
            r.span == self.span,
            r.file_id == self.file_id,
    {
        let mut s = self;
        s.scope_id = Some(scope_id);
        s
    }
}

/// A use (or the definition) of a symbol at a span of a file.
#[derive(Debug, Clone)]
pub struct Reference {
    pub symbol_id: String,
    pub span: Span,
    pub file_id: FileId,
    pub is_definition: bool,
}

impl Reference {
    pub fn new(symbol_id: String, span: Span, file_id: FileId, is_definition: bool) -> (r:
        Reference)
        ensures
            r.symbol_id == symbol_id,
            r.span == span,
            r.file_id == file_id,
            r.is_definition == is_definition,
    {
        Reference { symbol_id, span, file_id, is_definition }
    }
}

} // verus!
