//! The interfaces between parsers and the analyses that read their syntax trees.
use vstd::prelude::*;

use crate::diagnostic::Severity;
use crate::language::Language;
use crate::span::Span;

verus! {

/// A node of a syntax tree.
pub trait AstNode {
    fn kind(&self) -> &str;

    fn text(&self) -> &str;

    fn span(&self) -> Span;
}

/// A syntax tree.
pub trait Ast {
    type Node: AstNode;

    type Error;

    fn root_node(&self) -> &Self::Node;

    fn node_text<'a>(&self, node: &'a Self::Node) -> &'a str;

    fn node_kind<'a>(&self, node: &'a Self::Node) -> &'a str;

    fn node_span(&self, node: &Self::Node) -> Span;

    fn node_children<'a>(&self, node: &'a Self::Node) -> Vec<&'a Self::Node>;

    fn get_syntax_errors(&self) -> Vec<SyntaxError>;
}

/// A visitor of the nodes of a syntax tree.
pub trait AstVisitor {
    type Ast: Ast;

    type Result;

    fn visit_node(&mut self, node: &<Self::Ast as Ast>::Node) -> Self::Result;

    fn visit_children(&mut self, node: &<Self::Ast as Ast>::Node) -> Self::Result;
}

/// A syntax error found in a tree: what is wrong, where, and how serious it is.
#[derive(Debug, Clone)]
pub struct SyntaxError {
    pub message: String,
    pub span: Span,
    pub severity: Severity,
}

impl SyntaxError {
    pub fn new(message: String, span: Span, severity: Severity) -> (r: SyntaxError)
        ensures
            r.message == message,
            r.span == span,
            r.severity == severity,
    {
        SyntaxError { message, span, severity }
    }
}

/// A parser of source text into syntax trees.
pub trait CodeParser {
    type Ast: Ast;

    type Error;

    fn parse(&self, source: &str, language: Language) -> Result<Self::Ast, Self::Error>;

    fn parse_incremental(&self, source: &str, old_ast: &Self::Ast) -> Result<Self::Ast, Self::Error>;

    fn get_syntax_errors(&self, ast: &Self::Ast) -> Vec<SyntaxError>;

    fn supports_language(&self, language: &Language) -> bool;
}

/// A parser that can reparse from the changes between two texts.
pub trait IncrementalParser: CodeParser {
    fn compute_diff(&self, old_source: &str, new_source: &str) -> Diff;

    fn apply_diff(&self, ast: &Self::Ast, diff: &Diff) -> Result<Self::Ast, Self::Error>;
}

/// The changes that turn one text into another.
#[derive(Debug, Clone)]
pub struct Diff {
    pub changes: Vec<Change>,
}

/// One change of a text, by byte offsets.
#[derive(Debug, Clone)]
pub enum Change {
    Insert { position: usize, text: String },
    Delete { start: usize, end: usize },
    Replace { start: usize, end: usize, text: String },
}

} // verus!
