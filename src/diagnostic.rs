//! Diagnostics reported on source text, and the edits that fix them.
use vstd::prelude::*;

use crate::ast::Ast;
use crate::span::Span;
use crate::symbol_table::SemanticAnalyzer;

verus! {

/// How serious a diagnostic is, most serious first.
#[derive(Debug, Clone, Copy, PartialEq, Eq, PartialOrd, Ord, Structural)]
pub enum Severity {
    Error,
    Warning,
    Info,
    Hint,
}

/// A message about a span of the source.
#[derive(Debug, Clone, PartialEq)]
pub struct Diagnostic {
    pub severity: Severity,
    pub message: String,
    pub span: Span,
    pub code: Option<String>,
    pub fixable: bool,
    pub suggestions: Vec<String>,
}

impl Diagnostic {
    /// A diagnostic without code, not fixable, without suggestions.
    pub fn new(severity: Severity, message: String, span: Span) -> (r: Diagnostic)
        ensures
            r.severity == severity,
            r.message == message,
            r.span == span,
            r.code is None,
            !r.fixable,
            r.suggestions@.len() == 0,
    {
        Diagnostic { severity, message, span, code: None, fixable: false, suggestions: Vec::new() }
    }

    pub fn with_code(self, code: String) -> (r: Diagnostic)
        ensures
            r.code == Some(code),
            r.severity == self.severity,
            r.message == self.message,
            r.span == self.span,
            r.fixable == self.fixable,
            r.suggestions == self.suggestions,
    {
        let mut d = self;
        d.code = Some(code);
        d
    }

    pub fn with_fixable(self, fixable: bool) -> (r: Diagnostic)
        ensures
            r.fixable == fixable,
            r.severity == self.severity,
            r.message == self.message,
            r.span == self.span,
            r.code == self.code,
            r.suggestions == self.suggestions,
    {
        let mut d = self;
        d.fixable = fixable;
        d
    }

    pub fn with_suggestions(self, suggestions: Vec<String>) -> (r: Diagnostic)
        ensures
            r.suggestions == suggestions,
            r.severity == self.severity,
            r.message == self.message,
            r.span == self.span,
            r.code == self.code,
            r.fixable == self.fixable,
    {
        let mut d = self;
        d.suggestions = suggestions;
        d
    }
}

/// The kind of change a fix makes.
#[derive(Debug, Clone, Copy, PartialEq, Eq, Structural)]
pub enum FixKind {
    Replace,
    Insert,
    Delete,
    Refactor,
}

/// The replacement of a span of the source by new text.
#[derive(Debug, Clone, PartialEq)]
pub struct TextEdit {
    pub span: Span,
    pub new_text: String,
}

impl TextEdit {
    pub fn new(span: Span, new_text: String) -> (r: TextEdit)
        ensures
            r.span == span,
            r.new_text == new_text,
    {
        TextEdit { span, new_text }
    }
}

/// A named fix: a set of edits.
#[derive(Debug, Clone)]
pub struct FixCommand {
    pub title: String,
    pub kind: FixKind,
    pub edits: Vec<TextEdit>,
}

impl FixCommand {
    pub fn new(title: String, kind: FixKind, edits: Vec<TextEdit>) -> (r: FixCommand)
        ensures
            r.title == title,
            r.kind == kind,
            r.edits == edits,
    {
        FixCommand { title, kind, edits }
    }
}

/// Finds diagnostics in syntax trees of type `A` with the help of a semantic analysis, and
/// proposes fixes.
pub trait DiagnosticProvider<A: Ast> {
    type Diagnostic;

    type Error;

    fn analyze<S: SemanticAnalyzer<A, Context = (), Error = ()>>(&self, ast: &A, analyzer: &S) -> Result<
        Vec<Self::Diagnostic>,
        Self::Error,
    >;

    fn get_quick_fixes(&self, diagnostic: &Self::Diagnostic) -> Vec<FixCommand>;

    fn get_suggestions(&self, diagnostic: &Self::Diagnostic) -> Vec<String>;
}

} // verus!
