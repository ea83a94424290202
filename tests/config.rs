use rpa_source::config::{
    format_key_values, parse_key_values, ConfigFormat, ConfigValidationError, FileConfigProvider,
};
use std::path::PathBuf;

#[test]
fn key_value_lines_are_split_and_trimmed() {
    let pairs = parse_key_values("a = 1\n  b=two words \r\nno separator\nc=x=y\n", b'=');
    assert_eq!(
        pairs,
        vec![
            ("a".to_string(), "1".to_string()),
            ("b".to_string(), "two words".to_string()),
            ("c".to_string(), "x=y".to_string()),
        ]
    );
    let pairs = parse_key_values("name: \u{e9}t\u{e9}\n\u{3000}k:v", b':');
    assert_eq!(pairs, vec![("name".to_string(), "\u{e9}t\u{e9}".to_string()), ("k".to_string(), "v".to_string())]);
    assert!(parse_key_values("", b':').is_empty());
}

#[test]
fn key_value_lines_are_written() {
    let pairs = vec![("a".to_string(), "1".to_string()), ("b".to_string(), "2".to_string())];
    assert_eq!(format_key_values(&pairs, " = "), "a = 1\nb = 2");
    assert_eq!(format_key_values(&Vec::new(), "="), "");
}

#[test]
fn providers_and_formats() {
    let provider = FileConfigProvider::new(PathBuf::from("conf.yaml"), ConfigFormat::Yaml);
    assert_eq!(provider.name(), "file");
    assert_eq!(provider.format(), ConfigFormat::Yaml);
    assert_eq!(provider.separator(), Some(':'));
    assert_eq!(provider.written_separator(), Some(": "));
    assert_eq!(provider.path(), &PathBuf::from("conf.yaml"));
    let json = FileConfigProvider::new(PathBuf::from("c.json"), ConfigFormat::Json);
    assert_eq!(json.separator(), None);
    let toml = FileConfigProvider::new(PathBuf::from("c.toml"), ConfigFormat::Toml);
    assert_eq!(toml.written_separator(), Some(" = "));
}

#[test]
fn validation_error_messages() {
    let e = ConfigValidationError::TypeMismatch {
        key: "port".to_string(),
        expected: "integer".to_string(),
        actual: "string".to_string(),
    };
    assert_eq!(e.to_string(), "Type mismatch for key 'port': expected integer, got string");
    let e = ConfigValidationError::MissingKey { key: "k".to_string() };
    assert_eq!(e.to_string(), "Missing required key: k");
}
