use rpa_source::diagnostic::{Diagnostic, Severity};
use rpa_source::document::{FileId, TextDocument};
use rpa_source::errors::{CoreError, CoreResult, ParserError, ParserResult, SemanticResult};
use rpa_source::get_supported_languages;
use rpa_source::hash_utils::HashUtils;
use rpa_source::language::Language;
use rpa_source::span::{Position, Span};
use rpa_source::symbol::{Reference, Symbol, SymbolKind};
use rpa_source::symbol_table::{Scope, SymbolTable};
use rpa_source::text_utils::TextUtils;
use rpa_source::validation::ValidationUtils;

#[test]
fn test_get_supported_languages() {
    let languages = get_supported_languages();
    assert!(languages.contains(&"Python".to_string()));
    assert!(languages.contains(&"JSON".to_string()));
    assert!(languages.contains(&"Rust".to_string()));
    assert!(languages.contains(&"JavaScript".to_string()));
    assert!(languages.contains(&"TypeScript".to_string()));
    assert_eq!(languages.len(), 5);
}

#[test]
fn test_core_types_integration() {
    let file_id = FileId::new("test.py");
    assert_eq!(file_id.0, "test.py");

    let span = Span::new(0, 10);
    assert_eq!(span.start, 0);
    assert_eq!(span.end, 10);
    assert_eq!(span.len(), 10);

    let pos = Position::new(1, 5);
    assert_eq!(pos.line, 1);
    assert_eq!(pos.column, 5);

    let language = Language::Python;
    assert_eq!(language, Language::from_extension("py"));
}

#[test]
fn test_core_traits_integration() {
    let mut symbol_table = SymbolTable::new();
    let file_id = FileId::new("test.py");
    let symbol = Symbol::new(
        "test_func".to_string(),
        "test_func".to_string(),
        SymbolKind::Function,
        Span::new(0, 10),
        file_id.clone(),
    );
    symbol_table.add_symbol(symbol);
    assert_eq!(symbol_table.symbols.len(), 1);

    let scope = Scope::new(&"global".to_string(), Span::new(0, 100));
    symbol_table.add_scope(scope);
    assert_eq!(symbol_table.scopes.len(), 1);
}

#[test]
fn test_core_errors_integration() {
    let parse_error = ParserError::SyntaxError {
        code: "syntax_error",
        message: "Test error".to_string(),
        span: Span::new(0, 10),
    };
    let core_error: CoreError = parse_error.into();
    match core_error {
        CoreError::ParseError { message, .. } => {
            assert!(message.contains("Test error"));
        }
        _ => panic!("Expected ParseError"),
    }

    let _: CoreResult<()> = Ok(());
    let _: ParserResult<()> = Ok(());
    let _: SemanticResult<()> = Ok(());
}

#[test]
fn test_text_utils_integration() {
    let text = "Hello\nWorld\nTest";
    let pos = TextUtils::offset_to_position(text, 6);
    assert_eq!(pos.line, 1);
    assert_eq!(pos.column, 0);
    let offset = TextUtils::position_to_offset(text, &Position::new(1, 0));
    assert_eq!(offset, 6);

    let span = Span::new(0, 5);
    let slice = TextUtils::get_text_slice(text, &span);
    assert_eq!(slice, "Hello");

    assert_eq!(TextUtils::count_lines(text), 3);
    assert_eq!(TextUtils::get_line(text, 1), Some("World"));
}

#[test]
fn test_validation_utils_integration() {
    let text = "Hello World";
    let span = Span::new(0, 5);
    let position = Position::new(0, 0);
    assert!(ValidationUtils::validate_span(&span, text.len()));
    assert!(ValidationUtils::validate_position(&position, text));
    assert!(ValidationUtils::validate_file_id("test.py"));
    assert!(!ValidationUtils::validate_file_id(""));
}

#[test]
fn test_hash_utils_integration() {
    let text = "Hello World";
    let hash1 = HashUtils::hash_text(text);
    let hash2 = HashUtils::hash_text(text);
    assert_eq!(hash1, hash2);

    let file_hash = HashUtils::hash_file_content(text, &Language::Python);
    assert!(!file_hash.is_empty());
    assert!(file_hash.chars().all(|c| c.is_ascii_hexdigit()));
}

#[test]
fn test_diagnostic_integration() {
    let span = Span::new(0, 10);
    let diagnostic = Diagnostic::new(Severity::Error, "Test error".to_string(), span);
    assert_eq!(diagnostic.severity, Severity::Error);
    assert_eq!(diagnostic.message, "Test error");
    assert_eq!(diagnostic.span, span);
    assert!(!diagnostic.fixable);

    let diagnostic_with_code = diagnostic.with_code("E001".to_string());
    assert_eq!(diagnostic_with_code.code, Some("E001".to_string()));

    let diagnostic_fixable = diagnostic_with_code.with_fixable(true);
    assert!(diagnostic_fixable.fixable);
}

#[test]
fn test_symbol_reference_integration() {
    let file_id = FileId::new("test.py");
    let span = Span::new(0, 10);
    let symbol = Symbol::new(
        "test_func".to_string(),
        "test_func".to_string(),
        SymbolKind::Function,
        span,
        file_id.clone(),
    );
    assert_eq!(symbol.name, "test_func");
    assert_eq!(symbol.kind, SymbolKind::Function);
    assert_eq!(symbol.span, span);
    assert_eq!(symbol.file_id, file_id);

    let reference = Reference::new("test_func".to_string(), span, file_id.clone(), true);
    assert_eq!(reference.symbol_id, "test_func");
    assert_eq!(reference.span, span);
    assert_eq!(reference.file_id, file_id);
    assert!(reference.is_definition);
}

#[test]
fn test_text_document_integration() {
    let file_id = FileId::new("test.py");
    let content = "def hello(): pass";
    let doc = TextDocument::new(file_id.clone(), content.to_string(), Language::Python);
    assert_eq!(doc.file_id, file_id);
    assert_eq!(doc.content, content);
    assert_eq!(doc.language, Language::Python);
    assert_eq!(doc.version, 1);

    let doc_with_version = doc.with_version(5);
    assert_eq!(doc_with_version.version, 5);
}

#[test]
fn test_language_detection_integration() {
    assert_eq!(Language::from_extension("py"), Language::Python);
    assert_eq!(Language::from_extension("json"), Language::Json);
    assert_eq!(Language::from_extension("yaml"), Language::Yaml);
    assert_eq!(Language::from_extension("yml"), Language::Yaml);
    assert_eq!(Language::from_extension("md"), Language::Markdown);
    assert_eq!(Language::from_extension("rs"), Language::Rust);
    assert_eq!(Language::from_extension("js"), Language::JavaScript);
    assert_eq!(Language::from_extension("ts"), Language::TypeScript);
    assert_eq!(Language::from_extension("unknown"), Language::Unknown);

    assert_eq!(Language::from_filename("test.py"), Language::Python);
    assert_eq!(Language::from_filename("config.json"), Language::Json);
    assert_eq!(Language::from_filename("README.md"), Language::Markdown);
    assert_eq!(Language::from_filename("no_extension"), Language::Unknown);
}

#[test]
fn test_severity_ordering_integration() {
    let severities = vec![Severity::Info, Severity::Error, Severity::Hint, Severity::Warning];
    let mut sorted = severities.clone();
    sorted.sort();
    assert_eq!(sorted, vec![Severity::Error, Severity::Warning, Severity::Info, Severity::Hint]);
}
