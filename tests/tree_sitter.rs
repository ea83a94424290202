use rpa_source::ast::{Ast, AstNode, CodeParser, IncrementalParser};
use rpa_source::language::Language;
use rpa_source::tree_sitter_parser::{
    SyntaxErrorType, TreeSitterParser, TreeSitterPythonParser,
};

#[test]
fn test_parse_python_code() {
    let mut parser = TreeSitterPythonParser::new();
    let code = "def foo(x):\n    return x + 1\n";
    let tree = parser.parse(code);
    assert!(tree.is_some());
    let tree = tree.unwrap();
    let root = tree.root_node();
    assert_eq!(root.kind(), "module");
    assert!(root.child_count() > 0);
}

#[test]
fn test_tree_sitter_parser() {
    let parser = TreeSitterParser::new();
    let code = "def hello():\n    print('Hello, World!')\n";
    let result = parser.parse(code, Language::Python);
    assert!(result.is_ok());
    let ast = result.unwrap();
    let errors = ast.get_syntax_errors();
    assert!(errors.is_empty());
    let root = ast.root_node();
    assert_eq!(root.kind(), "module");
    assert!(!root.children().is_empty());
}

#[test]
fn test_parse_json() {
    let parser = TreeSitterParser::new();
    let code = r#"{"name": "test", "value": 42}"#;
    let result = parser.parse(code, Language::Json);
    assert!(result.is_ok());
    let ast = result.unwrap();
    let errors = ast.get_syntax_errors();
    assert!(errors.is_empty());
    let root = ast.root_node();
    assert_eq!(root.kind(), "document");
}

#[test]
fn test_unsupported_language() {
    let parser = TreeSitterParser::new();
    let result = parser.parse("{}", Language::Rust);
    assert!(result.is_err());
}

#[test]
fn test_supports_language() {
    let parser = TreeSitterParser::new();
    assert!(parser.supports_language(&Language::Python));
    assert!(parser.supports_language(&Language::Json));
    assert!(!parser.supports_language(&Language::Rust));
}

#[test]
fn test_supported_languages() {
    let languages = TreeSitterParser::supported_languages();
    assert!(languages.contains(&Language::Python));
    assert!(languages.contains(&Language::Json));
}

#[test]
fn test_tree_sitter_integration() {
    let python_code = r#"
def fibonacci(n):
    """Calculate the nth Fibonacci number."""
    if n <= 1:
        return n
    return fibonacci(n-1) + fibonacci(n-2)

# Test the function
result = fibonacci(10)
print(f"Fibonacci(10) = {result}")
"#;
    let parser = TreeSitterParser::new();
    let result = parser.parse(python_code, Language::Python);
    assert!(result.is_ok(), "Failed to parse Python code");
    let ast = result.unwrap();
    let errors = ast.get_syntax_errors();
    assert!(errors.is_empty(), "Python code should have no syntax errors");
    let root = ast.root_node();
    assert_eq!(root.kind(), "module");
    let children = root.children();
    assert!(!children.is_empty(), "Module should have children");
    let mut found_function = false;
    for child in &children {
        if child.kind() == "function_definition" {
            found_function = true;
            break;
        }
    }
    assert!(found_function, "Should find function definition");
}

#[test]
fn test_json_parsing() {
    let json_code = r#"{
    "name": "test_project",
    "version": "1.0.0",
    "dependencies": {
        "tree-sitter": "^0.20.0",
        "serde": "^1.0.0"
    },
    "scripts": {
        "test": "cargo test",
        "build": "cargo build"
    }
}"#;
    let parser = TreeSitterParser::new();
    let result = parser.parse(json_code, Language::Json);
    assert!(result.is_ok(), "Failed to parse JSON code");
    let ast = result.unwrap();
    let errors = ast.get_syntax_errors();
    assert!(errors.is_empty(), "JSON code should have no syntax errors");
    let root = ast.root_node();
    assert_eq!(root.kind(), "document");
}

#[test]
fn test_syntax_error_detection() {
    let invalid_python = r#"
def incomplete_function(
    # Missing closing parenthesis and function body
"#;
    let parser = TreeSitterParser::new();
    let result = parser.parse(invalid_python, Language::Python);
    if let Ok(ast) = result {
        let errors = ast.get_syntax_errors();
        println!("Detected {} syntax errors", errors.len());
    }
}

#[test]
fn test_language_support() {
    let parser = TreeSitterParser::new();
    assert!(parser.supports_language(&Language::Python));
    assert!(parser.supports_language(&Language::Json));
    assert!(!parser.supports_language(&Language::Rust));
    assert!(!parser.supports_language(&Language::JavaScript));
}

#[test]
fn test_ast_node_operations() {
    let python_code = "x = 42\ny = x + 1";
    let parser = TreeSitterParser::new();
    let ast = parser.parse(python_code, Language::Python).unwrap();
    let root = ast.root_node();
    assert_eq!(root.kind(), "module");
    assert!(!root.text().is_empty());
    assert!(root.span().end > root.span().start);
    let children = root.children();
    assert!(!children.is_empty());
    for child in &children {
        assert!(!child.kind().is_empty());
        assert!(!child.text().is_empty());
        assert!(child.span().end > child.span().start);
    }
}

#[test]
fn test_legacy_python_parser() {
    let mut parser = TreeSitterPythonParser::new();
    let code = "def test():\n    pass";
    let tree = parser.parse(code);
    assert!(tree.is_some(), "Legacy parser should parse successfully");
    let tree = tree.unwrap();
    let root = tree.root_node();
    assert_eq!(root.kind(), "module");
}

#[test]
fn syntax_errors_are_reported() {
    let parser = TreeSitterParser::new();
    let mut reported = 0;
    for code in [")))", "def f(:\n", "x = = 1", "@@@ ???"] {
        let ast = parser.parse(code, Language::Python).unwrap();
        let errors = ast.get_syntax_errors();
        let detailed = ast.get_detailed_syntax_errors();
        assert_eq!(detailed.len(), errors.len());
        for error in &errors {
            assert!(error.message.starts_with("Invalid syntax: "));
        }
        reported += errors.len();
    }
    assert!(reported > 0);
}

#[test]
fn node_kinds_classify_errors() {
    assert!(matches!(SyntaxErrorType::from_node_kind("ERROR", "x"), SyntaxErrorType::InvalidSyntax(t) if t == "x"));
    assert!(matches!(SyntaxErrorType::from_node_kind("MISSING", ")"), SyntaxErrorType::MissingToken(t) if t == ")"));
    assert!(matches!(SyntaxErrorType::from_node_kind("identifier", "x"), SyntaxErrorType::Unknown));
}

#[test]
fn unsupported_language_message() {
    let parser = TreeSitterParser::new();
    match parser.parse("{}", Language::Custom("cobol".to_string())) {
        Err(e) => assert!(e.to_string().contains("Unsupported language: Custom(\"cobol\")")),
        Ok(_) => panic!("expected an error"),
    }
}

fn replacements(diff: &rpa_source::ast::Diff) -> Vec<(usize, usize, String)> {
    diff.changes
        .iter()
        .map(|c| match c {
            rpa_source::ast::Change::Replace { start, end, text } => (*start, *end, text.clone()),
            _ => panic!("only replacements are produced"),
        })
        .collect()
}

#[test]
fn line_diff_replaces_changed_lines() {
    let parser = TreeSitterParser::new();
    let diff = parser.compute_diff("a\nb\nc", "a\nB\nc\nd\ne");
    assert_eq!(
        replacements(&diff),
        vec![(2, 4, "B".to_string()), (5, 5, "d\ne".to_string())]
    );
    let diff = parser.compute_diff("x\ny\nz", "x");
    assert_eq!(replacements(&diff), vec![(2, 5, String::new())]);
    let diff = parser.compute_diff("same\r\n", "same\n");
    assert!(replacements(&diff).is_empty());
    let ast = parser.apply_diff(&parser.parse("x = 1", Language::Python).unwrap(), &parser.compute_diff("x = 1", "x = 2")).unwrap();
    assert_eq!(ast.root_node().kind(), "module");
}
