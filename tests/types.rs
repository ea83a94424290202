use rpa_source::diagnostic::{Diagnostic, FixCommand, FixKind, Severity, TextEdit};
use rpa_source::document::{FileId, SourceCode, TextDocument};
use rpa_source::language::{Language, LanguageConfig};
use rpa_source::span::{Position, Span, TextRange};
use rpa_source::symbol::{Reference, Symbol, SymbolKind};

#[test]
fn test_diagnostic() {
    let span = Span::new(0, 10);
    let diagnostic = Diagnostic::new(Severity::Error, "Test error".to_string(), span);
    assert_eq!(diagnostic.severity, Severity::Error);
    assert_eq!(diagnostic.message, "Test error");
    assert_eq!(diagnostic.span, span);
    assert!(!diagnostic.fixable);

    let diagnostic_with_code = diagnostic.with_code("E001".to_string());
    assert_eq!(diagnostic_with_code.code, Some("E001".to_string()));

    let diagnostic_fixable = diagnostic_with_code.with_fixable(true);
    assert!(diagnostic_fixable.fixable);
}

#[test]
fn test_severity_ordering() {
    let severities = vec![Severity::Info, Severity::Error, Severity::Hint, Severity::Warning];
    let mut sorted = severities.clone();
    sorted.sort();
    assert_eq!(sorted, vec![Severity::Error, Severity::Warning, Severity::Info, Severity::Hint]);
}

#[test]
fn test_fix_command() {
    let span = Span::new(0, 10);
    let edit = TextEdit::new(span, "new code".to_string());
    let fix_command = FixCommand::new("Fix error".to_string(), FixKind::Replace, vec![edit.clone()]);
    assert_eq!(fix_command.title, "Fix error");
    assert_eq!(fix_command.kind, FixKind::Replace);
    assert_eq!(fix_command.edits.len(), 1);
    assert_eq!(fix_command.edits[0], edit);
}

#[test]
fn test_text_edit() {
    let span = Span::new(0, 10);
    let edit = TextEdit::new(span, "new text".to_string());
    assert_eq!(edit.span, span);
    assert_eq!(edit.new_text, "new text");
}

#[test]
fn diagnostic_suggestions() {
    let d = Diagnostic::new(Severity::Hint, "h".to_string(), Span::new(1, 2))
        .with_suggestions(vec!["a".to_string(), "b".to_string()]);
    assert_eq!(d.suggestions.len(), 2);
    assert_eq!(d.code, None);
}

#[test]
fn test_file_id() {
    let file_id = FileId::new("test.py");
    assert_eq!(file_id.0, "test.py");

    let file_id_from_str = FileId::from("test.rs");
    assert_eq!(file_id_from_str.0, "test.rs");

    let file_id_from_string = FileId::from("test.js".to_string());
    assert_eq!(file_id_from_string.0, "test.js");
}

#[test]
fn test_text_document() {
    let file_id = FileId::new("test.py");
    let doc = TextDocument::new(file_id.clone(), "def hello(): pass".to_string(), Language::Python);
    assert_eq!(doc.file_id, file_id);
    assert_eq!(doc.content, "def hello(): pass");
    assert_eq!(doc.language, Language::Python);
    assert_eq!(doc.version, 1);

    let doc_with_version = doc.with_version(5);
    assert_eq!(doc_with_version.version, 5);
}

#[test]
fn test_source_code() {
    let file_id = FileId::new("test.py");
    let source_code =
        SourceCode::new("def hello(): pass".to_string(), Language::Python, file_id.clone());
    assert_eq!(source_code.content, "def hello(): pass");
    assert_eq!(source_code.language, Language::Python);
    assert_eq!(source_code.file_id, file_id);
}

#[test]
fn test_language_from_string() {
    assert_eq!(Language::from_string("python"), Language::Python);
    assert_eq!(Language::from_string("PYTHON"), Language::Python);
    assert_eq!(Language::from_string("custom_lang"), Language::Custom("custom_lang".to_string()));
}

#[test]
fn test_language_as_string() {
    assert_eq!(Language::Python.as_string(), "python");
    assert_eq!(Language::Custom("my_lang".to_string()).as_string(), "my_lang");
}

#[test]
fn test_language_properties() {
    assert!(Language::Python.is_builtin());
    assert!(!Language::Python.is_custom());
    assert!(Language::Custom("test".to_string()).is_custom());
    assert!(!Language::Custom("test".to_string()).is_builtin());
}

#[test]
fn language_names_and_abbreviations() {
    assert_eq!(Language::from_string("Yml"), Language::Yaml);
    assert_eq!(Language::from_string("TS"), Language::TypeScript);
    assert_eq!(Language::from_lowercase_name("md", "MD"), Language::Markdown);
    assert_eq!(Language::from_lowercase_name("cobol", "COBOL"), Language::Custom("COBOL".to_string()));
}

#[test]
fn test_position() {
    let pos = Position::new(1, 5);
    assert_eq!(pos.line, 1);
    assert_eq!(pos.column, 5);

    let pos2 = Position::new(1, 10);
    assert!(pos < pos2);
}

#[test]
fn test_text_range() {
    let start = Position::new(1, 0);
    let end = Position::new(1, 10);
    let range = TextRange::new(start.clone(), end.clone());
    assert_eq!(range.start, start);
    assert_eq!(range.end, end);

    let inside = Position::new(1, 5);
    let outside = Position::new(2, 0);
    assert!(range.contains(&inside));
    assert!(!range.contains(&outside));
}

#[test]
fn test_span() {
    let span = Span::new(0, 10);
    assert_eq!(span.start, 0);
    assert_eq!(span.end, 10);
    assert_eq!(span.len(), 10);
    assert!(!span.is_empty());

    let empty_span = Span::new(5, 5);
    assert!(empty_span.is_empty());
    assert_eq!(empty_span.len(), 0);
}

#[test]
fn test_symbol() {
    let file_id = FileId::new("test.py");
    let span = Span::new(0, 10);
    let symbol = Symbol::new(
        "func1".to_string(),
        "func1".to_string(),
        SymbolKind::Function,
        span,
        file_id.clone(),
    );
    assert_eq!(symbol.id, "func1");
    assert_eq!(symbol.name, "func1");
    assert_eq!(symbol.kind, SymbolKind::Function);
    assert_eq!(symbol.span, span);
    assert_eq!(symbol.file_id, file_id);
    assert!(symbol.scope_id.is_none());

    let symbol_with_scope = symbol.with_scope("global".to_string());
    assert_eq!(symbol_with_scope.scope_id, Some("global".to_string()));
}

#[test]
fn test_reference() {
    let file_id = FileId::new("test.py");
    let span = Span::new(0, 10);
    let reference = Reference::new("func1".to_string(), span, file_id.clone(), true);
    assert_eq!(reference.symbol_id, "func1");
    assert_eq!(reference.span, span);
    assert_eq!(reference.file_id, file_id);
    assert!(reference.is_definition);
}

#[test]
fn test_language() {
    assert_eq!(Language::from_extension("py"), Language::Python);
    assert_eq!(Language::from_extension("json"), Language::Json);
    assert_eq!(Language::from_extension("yaml"), Language::Yaml);
    assert_eq!(Language::from_extension("yml"), Language::Yaml);
    assert_eq!(Language::from_extension("md"), Language::Markdown);
    assert_eq!(Language::from_extension("rs"), Language::Rust);
    assert_eq!(Language::from_extension("js"), Language::JavaScript);
    assert_eq!(Language::from_extension("ts"), Language::TypeScript);
    assert_eq!(Language::from_extension("unknown"), Language::Unknown);

    assert_eq!(Language::from_filename("test.py"), Language::Python);
    assert_eq!(Language::from_filename("config.json"), Language::Json);
    assert_eq!(Language::from_filename("README.md"), Language::Markdown);
    assert_eq!(Language::from_filename("no_extension"), Language::Unknown);
}

#[test]
fn test_custom_language_registration() {
    let mut config = LanguageConfig::new();
    config.register_custom_language("my_lang", &["ml", "mylang"], &["MyFile.ml"]);
    assert_eq!(config.from_extension("ml"), Language::Custom("my_lang".to_string()));
    assert_eq!(config.from_filename("MyFile.ml"), Language::Custom("my_lang".to_string()));
    let languages = config.get_supported_languages();
    assert!(languages.contains(&Language::Custom("my_lang".to_string())));
}

#[test]
fn language_config_lookups() {
    let mut config = LanguageConfig::default();
    assert_eq!(config.from_extension("PY"), Language::Python);
    assert_eq!(config.from_filename("Dockerfile"), Language::Yaml);
    assert_eq!(config.detect_language("main.rs"), Some(Language::Rust));
    assert_eq!(config.detect_language("main.RS"), None);
    assert_eq!(config.detect_language("README"), Some(Language::Markdown));
    config.add_extension("Cfg", Language::Yaml);
    assert_eq!(config.from_extension("cfg"), Language::Yaml);
    config.add_filename("Rakefile", Language::Custom("ruby".to_string()));
    assert_eq!(config.from_filename("Rakefile"), Language::Custom("ruby".to_string()));
    assert_eq!(config.get_supported_languages().len(), 7);
    config.register_custom_language("x", &["x1", "x2"], &[]);
    assert_eq!(config.get_supported_languages().len(), 8);
}
