//! Parsing with tree-sitter grammars into syntax trees of plain values, and the syntax
//! errors found in them.
use tree_sitter::{LanguageError, Parser, Tree};
use vstd::prelude::*;
use vstd::string::{StringExecFns, StringSliceAdditionalSpecFns};

use crate::ast::{Ast, AstNode, Change, CodeParser, Diff, IncrementalParser, SyntaxError};
use crate::text_diff::compute_text_diff;
use crate::diagnostic::Severity;
use crate::errors::ParserError;
use crate::language::Language;
use crate::source_file::slice_str;
use crate::span::Span;
use crate::text_eq::str_eq;
use crate::text_model::on_char_boundary;

verus! {

#[verifier::external_type_specification]
#[verifier::external_body]
pub struct ExParser(tree_sitter::Parser);

#[verifier::external_type_specification]
#[verifier::external_body]
pub struct ExTree(tree_sitter::Tree);

#[verifier::external_type_specification]
#[verifier::external_body]
pub struct ExLanguageError(tree_sitter::LanguageError);

/// Relies on `tree_sitter::Parser::new`: a parser without a grammar.
#[verifier::external_body]
fn new_parser() -> (r: Parser) {
    Parser::new()
}

/// Relies on `tree_sitter_python::language` and `tree_sitter::Parser::set_language`: gives the
/// parser the Python grammar, or fails when that grammar was generated for an incompatible
/// version of tree-sitter.
#[verifier::external_body]
fn set_python_grammar(parser: &mut Parser) -> (r: Result<(), LanguageError>) {
    parser.set_language(tree_sitter_python::language())
}

/// Relies on `tree_sitter_json::language` and `tree_sitter::Parser::set_language`: gives the
/// parser the JSON grammar, or fails when that grammar was generated for an incompatible
/// version of tree-sitter.
#[verifier::external_body]
fn set_json_grammar(parser: &mut Parser) -> (r: Result<(), LanguageError>) {
    parser.set_language(tree_sitter_json::language())
}

/// Relies on `tree_sitter::Parser::parse`: the syntax tree of `source`, or `None` when the
/// parser has no grammar.
#[verifier::external_body]
fn parse_source(parser: &mut Parser, source: &str) -> (r: Option<Tree>) {
    parser.parse(source, None)
}

/// Relies on the `Display` impl of `tree_sitter::LanguageError`: its description.
#[verifier::external_body]
fn grammar_error_text(err: &LanguageError) -> (r: String) {
    err.to_string()
}

/// Relies on `tree_sitter::Tree::walk` and its cursor: the nodes of the tree in pre-order,
/// each as its kind, start byte, end byte and number of children. The root comes first.
#[verifier::external_body]
fn preorder_nodes(tree: &Tree) -> (r: Vec<(String, usize, usize, usize)>)
    ensures
        r@.len() >= 1,
{
    let mut out = Vec::new();
    let mut cursor = tree.walk();
    loop {
        let n = cursor.node();
        out.push((n.kind().to_string(), n.start_byte(), n.end_byte(), n.child_count()));
        if !cursor.goto_first_child() {
            while !cursor.goto_next_sibling() {
                if !cursor.goto_parent() {
                    return out;
                }
            }
        }
    }
}

/// What kind of syntax error a node stands for.
#[derive(Debug, Clone)]
pub enum SyntaxErrorType {
    MissingToken(String),
    UnexpectedToken(String),
    InvalidSyntax(String),
    IncompleteExpression,
    UnmatchedDelimiter,
    Unknown,
}

/// Whether a node of kind `kind` is a syntax error.
pub open spec fn is_error_kind(kind: Seq<char>) -> bool {
    kind == "ERROR"@ || kind == "MISSING"@ || kind == "UNEXPECTED"@
}

impl SyntaxErrorType {
    /// The error that a node of kind `kind` with text `text` stands for: `ERROR` nodes are
    /// invalid syntax, `MISSING` nodes missing tokens, `UNEXPECTED` nodes unexpected tokens.
    pub fn from_node_kind(kind: &str, text: &str) -> (r: SyntaxErrorType)
        ensures
            kind@ == "ERROR"@ ==> (r matches SyntaxErrorType::InvalidSyntax(t) && t@ == text@),
            kind@ == "MISSING"@ && kind@ != "ERROR"@ ==> (r matches SyntaxErrorType::MissingToken(t)
                && t@ == text@),
            kind@ == "UNEXPECTED"@ && kind@ != "ERROR"@ && kind@ != "MISSING"@ ==> (
            r matches SyntaxErrorType::UnexpectedToken(t) && t@ == text@),
            !is_error_kind(kind@) ==> r is Unknown,
    {
        if str_eq(kind, "ERROR") {
            SyntaxErrorType::InvalidSyntax(text.to_owned())
        } else if str_eq(kind, "MISSING") {
            SyntaxErrorType::MissingToken(text.to_owned())
        } else if str_eq(kind, "UNEXPECTED") {
            SyntaxErrorType::UnexpectedToken(text.to_owned())
        } else {
            SyntaxErrorType::Unknown
        }
    }
}

/// A node of a syntax tree: its kind, its text, its span and its children.
#[derive(Debug)]
pub struct TreeSitterNode {
    pub kind: String,
    pub text: String,
    pub span: Span,
    pub children: Vec<TreeSitterNode>,
}

impl TreeSitterNode {
    pub fn new(kind: String, text: String, span: Span, children: Vec<TreeSitterNode>) -> (r:
        TreeSitterNode)
        ensures
            r.kind == kind,
            r.text == text,
            r.span == span,
            r.children == children,
    {
        TreeSitterNode { kind, text, span, children }
    }

    /// The children, in order.
    pub fn cached_children(&self) -> (r: &[TreeSitterNode])
        ensures
            r@ == self.children@,
    {
        self.children.as_slice()
    }

    /// The children, in order.
    pub fn children(&self) -> (r: Vec<&TreeSitterNode>)
        ensures
            r@.len() == self.children@.len(),
            forall|i: int| 0 <= i < r@.len() ==> *r@[i] == self.children@[i],
    {
        let mut out: Vec<&TreeSitterNode> = Vec::new();
        let mut i: usize = 0;
        while i < self.children.len()
            invariant
                i <= self.children@.len(),
                out@.len() == i,
                forall|j: int| 0 <= j < i ==> *out@[j] == self.children@[j],
            decreases self.children@.len() - i,
        {
            out.push(&self.children[i]);
            i += 1;
        }
        out
    }
}

impl AstNode for TreeSitterNode {
    fn kind(&self) -> &str {
        self.kind.as_str()
    }

    fn text(&self) -> &str {
        self.text.as_str()
    }

    fn span(&self) -> Span {
        self.span
    }
}

/// The text of bytes `[start, end)` of `source`, or the empty text when they do not lie
/// between characters of the source.
fn node_text(source: &str, start: usize, end: usize) -> (r: String)
    ensures
        start <= end <= source.spec_bytes().len() && on_char_boundary(source.spec_bytes(), start as int)
            && on_char_boundary(source.spec_bytes(), end as int) ==> vstd::utf8::encode_utf8(r@)
            == source.spec_bytes().subrange(start as int, end as int),
{
    broadcast use vstd::utf8::group_utf8_lib;

    let ghost b = source.spec_bytes();
    let len = source.as_bytes().len();
    proof {
        vstd::utf8::encode_utf8_valid_utf8(source@);
        if start < b.len() {
            vstd::utf8::is_char_boundary_iff_not_is_continuation_byte(b, start as int);
        }
        if end < b.len() {
            vstd::utf8::is_char_boundary_iff_not_is_continuation_byte(b, end as int);
        }
        vstd::utf8::is_char_boundary_start_end_of_seq(b);
    }
    if start <= end && end <= len && source.is_char_boundary(start)
        && source.is_char_boundary(end) {
        slice_str(source, start, end).to_owned()
    } else {
        String::new()
    }
}

/// The node at `flat[pos]` with its descendants, read from a pre-order list of nodes with
/// their numbers of children, and the position after them.
fn build_node(flat: &Vec<(String, usize, usize, usize)>, pos: usize, source: &str) -> (r: (TreeSitterNode, usize))
    requires
        pos < flat@.len(),
    ensures
        pos < r.1 <= flat@.len(),
        r.0.kind == flat@[pos as int].0,
        r.0.span == (Span { start: flat@[pos as int].1, end: flat@[pos as int].2 }),
    decreases flat@.len() - pos,
{
    let n = flat.len();
    let count = flat[pos].3;
    let mut children: Vec<TreeSitterNode> = Vec::new();
    let mut next = pos + 1;
    let mut i: usize = 0;
    while i < count && next < n
        invariant
            n == flat@.len(),
            pos < next <= flat@.len(),
            i <= count,
        decreases count - i,
    {
        let (child, after) = build_node(flat, next, source);
        children.push(child);
        next = after;
        i += 1;
    }
    let start = flat[pos].1;
    let end = flat[pos].2;
    let node = TreeSitterNode {
        kind: flat[pos].0.clone(),
        text: node_text(source, start, end),
        span: Span { start, end },
        children,
    };
    (node, next)
}

/// A syntax tree: its root, and its nodes in pre-order as kind, text and span.
#[derive(Debug)]
pub struct TreeSitterAst {
    root_node: TreeSitterNode,
    preorder: Vec<(String, String, Span)>,
}

/// The syntax errors among nodes given in pre-order: each node whose kind is an error kind,
/// with its span and text.
pub open spec fn errors_in(nodes: Seq<(String, String, Span)>) -> Seq<(Seq<char>, Span, Seq<char>)>
    decreases nodes.len(),
{
    if nodes.len() == 0 {
        seq![]
    } else {
        let last = nodes.last();
        errors_in(nodes.drop_last()) + if is_error_kind(last.0@) {
            seq![(last.0@, last.2, last.1@)]
        } else {
            seq![]
        }
    }
}

impl TreeSitterAst {
    /// The tree of `source` that tree-sitter parsed.
    pub fn new(tree: Tree, source: &str) -> (r: TreeSitterAst) {
        let flat = preorder_nodes(&tree);
        let mut preorder: Vec<(String, String, Span)> = Vec::new();
        let mut i: usize = 0;
        while i < flat.len()
            invariant
                i <= flat@.len(),
            decreases flat@.len() - i,
        {
            let start = flat[i].1;
            let end = flat[i].2;
            preorder.push((flat[i].0.clone(), node_text(source, start, end), Span { start, end }));
            i += 1;
        }
        let (root_node, _) = build_node(&flat, 0, source);
        TreeSitterAst { root_node, preorder }
    }

    pub closed spec fn spec_preorder(&self) -> Seq<(String, String, Span)> {
        self.preorder@
    }

    /// The nodes whose kind is an error kind, in pre-order: the kind of error, the span and
    /// the text of each.
    pub fn get_detailed_syntax_errors(&self) -> (r: Vec<(SyntaxErrorType, Span, String)>)
        ensures
            r@.len() == errors_in(self.spec_preorder()).len(),
            forall|i: int|
                0 <= i < r@.len() ==> (#[trigger] r@[i]).1 == errors_in(self.spec_preorder())[i].1
                    && r@[i].2@ == errors_in(self.spec_preorder())[i].2,
    {
        let mut errors: Vec<(SyntaxErrorType, Span, String)> = Vec::new();
        let mut i: usize = 0;
        assert(self.preorder@.take(0) =~= Seq::<(String, String, Span)>::empty());
        while i < self.preorder.len()
            invariant
                i <= self.preorder@.len(),
                errors@.len() == errors_in(self.preorder@.take(i as int)).len(),
                forall|j: int|
                    0 <= j < errors@.len() ==> (#[trigger] errors@[j]).1 == errors_in(
                        self.preorder@.take(i as int),
                    )[j].1 && errors@[j].2@ == errors_in(self.preorder@.take(i as int))[j].2,
            decreases self.preorder@.len() - i,
        {
            let kind = self.preorder[i].0.as_str();
            let text = self.preorder[i].1.as_str();
            let error_type = SyntaxErrorType::from_node_kind(kind, text);
            let ghost before = errors@;
            proof {
                assert(self.preorder@.take(i + 1).drop_last() =~= self.preorder@.take(i as int));
                assert(self.preorder@.take(i + 1).last() == self.preorder@[i as int]);
            }
            if matches!(
                error_type,
                SyntaxErrorType::InvalidSyntax(_) | SyntaxErrorType::MissingToken(_)
                    | SyntaxErrorType::UnexpectedToken(_)
            ) {
                errors.push((error_type, self.preorder[i].2, text.to_owned()));
                proof {
                    let e = errors_in(self.preorder@.take(i + 1));
                    assert forall|j: int| 0 <= j < errors@.len() implies (#[trigger] errors@[j]).1
                        == e[j].1 && errors@[j].2@ == e[j].2 by {
                        if j < before.len() {
                            assert(errors@[j] == before[j]);
                        }
                    }
                }
            }
            i += 1;
        }
        assert(self.preorder@.take(i as int) =~= self.preorder@);
        errors
    }
}

/// The message for a syntax error.
pub fn error_message(error_type: &SyntaxErrorType, text: &str) -> (r: String)
    ensures
        r@ == match error_type {
            SyntaxErrorType::MissingToken(token) => "Missing token: "@ + token@,
            SyntaxErrorType::UnexpectedToken(token) => "Unexpected token: "@ + token@,
            SyntaxErrorType::InvalidSyntax(_) => "Invalid syntax: "@ + text@,
            SyntaxErrorType::IncompleteExpression => "Incomplete expression"@,
            SyntaxErrorType::UnmatchedDelimiter => "Unmatched delimiter"@,
            SyntaxErrorType::Unknown => "Unknown syntax error"@,
        },
{
    match error_type {
        SyntaxErrorType::MissingToken(token) => {
            let mut m = "Missing token: ".to_owned();
            m.append(token.as_str());
            m
        },
        SyntaxErrorType::UnexpectedToken(token) => {
            let mut m = "Unexpected token: ".to_owned();
            m.append(token.as_str());
            m
        },
        SyntaxErrorType::InvalidSyntax(_) => {
            let mut m = "Invalid syntax: ".to_owned();
            m.append(text);
            m
        },
        SyntaxErrorType::IncompleteExpression => "Incomplete expression".to_owned(),
        SyntaxErrorType::UnmatchedDelimiter => "Unmatched delimiter".to_owned(),
        SyntaxErrorType::Unknown => "Unknown syntax error".to_owned(),
    }
}

impl Ast for TreeSitterAst {
    type Node = TreeSitterNode;

    type Error = ParserError;

    fn root_node(&self) -> &TreeSitterNode {
        &self.root_node
    }

    fn node_text<'a>(&self, node: &'a TreeSitterNode) -> &'a str {
        node.text.as_str()
    }

    fn node_kind<'a>(&self, node: &'a TreeSitterNode) -> &'a str {
        node.kind.as_str()
    }

    fn node_span(&self, node: &TreeSitterNode) -> Span {
        node.span
    }

    fn node_children<'a>(&self, node: &'a TreeSitterNode) -> Vec<&'a TreeSitterNode> {
        node.children()
    }

    fn get_syntax_errors(&self) -> Vec<SyntaxError> {
        let detailed = self.get_detailed_syntax_errors();
        let mut out: Vec<SyntaxError> = Vec::new();
        let mut i: usize = 0;
        while i < detailed.len()
            invariant
                i <= detailed@.len(),
            decreases detailed@.len() - i,
        {
            let message = error_message(&detailed[i].0, detailed[i].2.as_str());
            out.push(SyntaxError::new(message, detailed[i].1, Severity::Error));
            i += 1;
        }
        out
    }
}

/// The debug name of a language, as in `Custom("name")`.
pub open spec fn language_debug_text(language: Language) -> Seq<char> {
    match language {
        Language::Python => "Python"@,
        Language::Json => "Json"@,
        Language::Yaml => "Yaml"@,
        Language::Markdown => "Markdown"@,
        Language::Rust => "Rust"@,
        Language::JavaScript => "JavaScript"@,
        Language::TypeScript => "TypeScript"@,
        Language::Custom(name) => "Custom(\""@ + name@ + "\")"@,
        Language::Unknown => "Unknown"@,
    }
}

/// The debug name of a language, as in `Custom("name")`.
pub fn language_debug_name(language: &Language) -> (r: String)
    ensures
        r@ == language_debug_text(*language),
        r@ == match language {
            Language::Python => "Python"@,
            Language::Json => "Json"@,
            Language::Yaml => "Yaml"@,
            Language::Markdown => "Markdown"@,
            Language::Rust => "Rust"@,
            Language::JavaScript => "JavaScript"@,
            Language::TypeScript => "TypeScript"@,
            Language::Custom(name) => "Custom(\""@ + name@ + "\")"@,
            Language::Unknown => "Unknown"@,
        },
{
    match language {
        Language::Python => "Python".to_owned(),
        Language::Json => "Json".to_owned(),
        Language::Yaml => "Yaml".to_owned(),
        Language::Markdown => "Markdown".to_owned(),
        Language::Rust => "Rust".to_owned(),
        Language::JavaScript => "JavaScript".to_owned(),
        Language::TypeScript => "TypeScript".to_owned(),
        Language::Custom(name) => {
            let mut m = "Custom(\"".to_owned();
            m.append(name.as_str());
            m.append("\")");
            m
        },
        Language::Unknown => "Unknown".to_owned(),
    }
}

/// The error of a parser, at the start of the text.
fn create_error(message: String) -> (r: ParserError)
    ensures
        r == ParserError::syntax_error_spec(message, Span { start: 0, end: 0 }),
{
    ParserError::syntax_error(message, Span { start: 0, end: 0 })
}

/// A parser for the languages that have a tree-sitter grammar: Python and JSON.
pub struct TreeSitterParser {
    python_parser: Option<Parser>,
    json_parser: Option<Parser>,
}

impl TreeSitterParser {
    pub fn new() -> (r: TreeSitterParser) {
        TreeSitterParser { python_parser: None, json_parser: None }
    }

    /// Whether `language` has a grammar, and which: `true` for Python, `false` for JSON; an
    /// unsupported-language error for the others.
    fn get_language(language: &Language) -> (r: Result<bool, ParserError>)
        ensures
            r is Ok <==> (*language is Python || *language is Json),
            r matches Ok(python) ==> python == (*language is Python),
            r matches Err(e) ==> (e matches ParserError::SyntaxError { message, .. } && message@
                == "Unsupported language: "@ + language_debug_text(*language)),
    {
        match language {
            Language::Python => Ok(true),
            Language::Json => Ok(false),
            _ => {
                let mut message = "Unsupported language: ".to_owned();
                message.append(language_debug_name(language).as_str());
                Err(create_error(message))
            },
        }
    }

    /// The languages with a grammar.
    pub fn supported_languages() -> (r: Vec<Language>)
        ensures
            r@ == seq![Language::Python, Language::Json],
    {
        let mut languages: Vec<Language> = Vec::new();
        languages.push(Language::Python);
        languages.push(Language::Json);
        assert(languages@ =~= seq![Language::Python, Language::Json]);
        languages
    }
}

impl TreeSitterParser {
    /// The syntax tree of `source` in `language`. A language without a grammar fails with an
    /// unsupported-language error naming it; for Python and JSON the outcome is tree-sitter's.
    pub fn parse_text(&self, source: &str, language: &Language) -> (r: Result<TreeSitterAst, ParserError>)
        ensures
            !(*language is Python || *language is Json) ==> (r matches Err(ParserError::SyntaxError { message, .. })
                && message@ == "Unsupported language: "@ + language_debug_text(*language)),
    {
        let python = match TreeSitterParser::get_language(language) {
            Ok(python) => python,
            Err(e) => {
                return Err(e);
            },
        };
        let mut parser = new_parser();
        let loaded = if python {
            set_python_grammar(&mut parser)
        } else {
            set_json_grammar(&mut parser)
        };
        if let Err(e) = loaded {
            let mut message = "Failed to load grammar: ".to_owned();
            message.append(grammar_error_text(&e).as_str());
            return Err(create_error(message));
        }
        match parse_source(&mut parser, source) {
            Some(tree) => Ok(TreeSitterAst::new(tree, source)),
            None => Err(create_error("Failed to parse source code".to_owned())),
        }
    }
}

impl CodeParser for TreeSitterParser {
    type Ast = TreeSitterAst;

    type Error = ParserError;

    /// Fails with an unsupported-language error for a language without a grammar.
    fn parse(&self, source: &str, language: Language) -> Result<TreeSitterAst, ParserError> {
        self.parse_text(source, &language)
    }

    /// Parses `source` anew, as Python.
    fn parse_incremental(&self, source: &str, _old_ast: &TreeSitterAst) -> Result<TreeSitterAst, ParserError> {
        self.parse(source, Language::Python)
    }

    fn get_syntax_errors(&self, ast: &TreeSitterAst) -> Vec<SyntaxError> {
        ast.get_syntax_errors()
    }

    fn supports_language(&self, language: &Language) -> bool {
        TreeSitterParser::get_language(language).is_ok()
    }
}

impl TreeSitterParser {
    /// The line-by-line difference between two texts; see [`compute_text_diff`].
    pub fn compute_text_diff(&self, old_source: &str, new_source: &str) -> (r: Diff)
        requires
            old_source.spec_bytes().len() < usize::MAX,
        ensures
            r.changes@.len() == crate::text_diff::diff_of(
                old_source.spec_bytes(),
                new_source.spec_bytes(),
            ).len(),
            forall|i: int|
                0 <= i < r.changes@.len() ==> crate::text_diff::replacement_of(
                    #[trigger] r.changes@[i],
                ) == Some(crate::text_diff::diff_of(old_source.spec_bytes(), new_source.spec_bytes())[i]),
    {
        compute_text_diff(old_source, new_source)
    }
}

/// The texts of the replacements of `diff`, joined.
fn replacement_texts(diff: &Diff) -> (r: String) {
    let mut text = String::new();
    let mut i: usize = 0;
    while i < diff.changes.len()
        invariant
            i <= diff.changes@.len(),
        decreases diff.changes@.len() - i,
    {
        if let Change::Replace { text: piece, .. } = &diff.changes[i] {
            text.append(piece.as_str());
        }
        i += 1;
    }
    text
}

impl IncrementalParser for TreeSitterParser {
    /// The line-by-line difference; a text cannot be `usize::MAX` bytes long, so the other
    /// branch gives no changes only in principle.
    fn compute_diff(&self, old_source: &str, new_source: &str) -> Diff {
        if old_source.as_bytes().len() < usize::MAX {
            self.compute_text_diff(old_source, new_source)
        } else {
            Diff { changes: Vec::new() }
        }
    }

    /// Parses, as Python, the texts of the diff's replacements joined together.
    fn apply_diff(&self, _ast: &TreeSitterAst, diff: &Diff) -> Result<TreeSitterAst, ParserError> {
        let source = replacement_texts(diff);
        self.parse(source.as_str(), Language::Python)
    }
}

/// A parser for Python alone that hands out tree-sitter's own trees.
pub struct TreeSitterPythonParser {
    parser: Parser,
}

impl TreeSitterPythonParser {
    /// A parser with the Python grammar; should the grammar not load, its parses give `None`.
    pub fn new() -> (r: TreeSitterPythonParser) {
        let mut parser = new_parser();
        let _ = set_python_grammar(&mut parser);
        TreeSitterPythonParser { parser }
    }

    pub fn parse(&mut self, source_code: &str) -> (r: Option<Tree>) {
        parse_source(&mut self.parser, source_code)
    }
}

} // verus!
