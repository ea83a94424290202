use rpa_source::errors::{
    AiError, AppError, ConfigError, CoreError, FileError, LspError, NetworkError, ParserError,
    SemanticError, AI_ALL, AI_API_CALL_FAILED, AI_INVALID_RESPONSE, CONFIG_ALL,
    CONFIG_CONFIG_NOT_FOUND, CONFIG_INVALID_FORMAT, CONFIG_KEY_NOT_FOUND, FILE_ALL,
    FILE_FILE_NOT_FOUND, FILE_PERMISSION_DENIED, LSP_ALL, LSP_CONNECTION_FAILED,
    LSP_INVALID_REQUEST, NETWORK_ALL, NETWORK_TIMEOUT, PARSER_ALL, PARSER_SYNTAX_ERROR,
    PARSER_UNSUPPORTED_LANGUAGE, SEMANTIC_ALL, SEMANTIC_SYMBOL_NOT_FOUND,
    SEMANTIC_TYPE_MISMATCH,
};
use rpa_source::span::Span;

#[test]
fn test_ai_error() {
    let api_error = AiError::api_call_failed("API call failed".to_string());
    assert!(api_error.to_string().contains("API call failed"));
    assert_eq!(api_error.code(), AI_API_CALL_FAILED);

    let auth_error = AiError::authentication_failed("Invalid token".to_string());
    assert!(auth_error.to_string().contains("Authentication failed"));
    assert!(auth_error.to_string().contains("Invalid token"));
    assert_eq!(auth_error.code(), AI_ALL);

    let quota_error = AiError::quota_exceeded("Rate limit exceeded".to_string());
    assert!(quota_error.to_string().contains("Quota exceeded"));
    assert!(quota_error.to_string().contains("Rate limit exceeded"));
    assert_eq!(quota_error.code(), AI_ALL);

    let parse_error = AiError::response_parse_failed("Invalid JSON".to_string());
    assert!(parse_error.to_string().contains("Response parse failed"));
    assert!(parse_error.to_string().contains("Invalid JSON"));
    assert_eq!(parse_error.code(), AI_INVALID_RESPONSE);

    let timeout_error = AiError::timeout("Request timeout".to_string());
    assert!(timeout_error.to_string().contains("Timeout"));
    assert!(timeout_error.to_string().contains("Request timeout"));
    assert_eq!(timeout_error.code(), AI_ALL);

    let streaming_error = AiError::streaming_error("Stream interrupted".to_string());
    assert!(streaming_error.to_string().contains("Streaming error"));
    assert!(streaming_error.to_string().contains("Stream interrupted"));
    assert_eq!(streaming_error.code(), AI_ALL);
}

#[test]
fn test_config_error() {
    let not_found = ConfigError::config_not_found("/config.json".to_string());
    assert!(not_found.to_string().contains("Configuration file not found"));
    assert!(not_found.to_string().contains("/config.json"));
    assert_eq!(not_found.code(), CONFIG_CONFIG_NOT_FOUND);

    let parse_failed = ConfigError::parse_failed("Invalid JSON".to_string());
    assert!(parse_failed.to_string().contains("Configuration parse failed"));
    assert!(parse_failed.to_string().contains("Invalid JSON"));
    assert_eq!(parse_failed.code(), CONFIG_INVALID_FORMAT);

    let validation_failed = ConfigError::validation_failed("Invalid value".to_string());
    assert!(validation_failed.to_string().contains("Configuration validation failed"));
    assert!(validation_failed.to_string().contains("Invalid value"));
    assert_eq!(validation_failed.code(), CONFIG_ALL);

    let missing_required = ConfigError::missing_required("api_key".to_string());
    assert!(missing_required.to_string().contains("Missing required configuration"));
    assert!(missing_required.to_string().contains("api_key"));
    assert_eq!(missing_required.code(), CONFIG_KEY_NOT_FOUND);
}

#[test]
fn test_core_error_display() {
    let parse_error =
        CoreError::ParseError { code: "parse_error", message: "Syntax error".to_string() };
    assert!(parse_error.to_string().contains("Parse error"));
    assert!(parse_error.to_string().contains("Syntax error"));
    assert_eq!(parse_error.code(), "parse_error");

    let semantic_error =
        CoreError::SemanticError { code: "semantic_error", message: "Type error".to_string() };
    assert!(semantic_error.to_string().contains("Semantic error"));
    assert!(semantic_error.to_string().contains("Type error"));
    assert_eq!(semantic_error.code(), "semantic_error");

    let ai_error = CoreError::AiError { code: "ai_error", message: "API failed".to_string() };
    assert!(ai_error.to_string().contains("AI service error"));
    assert!(ai_error.to_string().contains("API failed"));
    assert_eq!(ai_error.code(), "ai_error");
}

#[test]
fn test_error_conversions() {
    let parser_error = ParserError::SyntaxError {
        code: "syntax_error",
        message: "Test syntax error".to_string(),
        span: Span::new(0, 10),
    };
    let core_error: CoreError = parser_error.into();
    match core_error {
        CoreError::ParseError { code, message } => {
            assert_eq!(code, "parse_error");
            assert!(message.contains("Test syntax error"));
        }
        _ => panic!("Expected ParseError"),
    }

    let semantic_error = SemanticError::SymbolNotFound {
        code: "symbol_not_found",
        symbol_name: "test_func".to_string(),
    };
    let core_error: CoreError = semantic_error.into();
    match core_error {
        CoreError::SemanticError { code, message } => {
            assert_eq!(code, "semantic_error");
            assert!(message.contains("test_func"));
        }
        _ => panic!("Expected SemanticError"),
    }

    let ai_error =
        AiError::ApiCallFailed { code: "api_call_failed", message: "API call failed".to_string() };
    let core_error: CoreError = ai_error.into();
    match core_error {
        CoreError::AiError { code, message } => {
            assert_eq!(code, "ai_error");
            assert!(message.contains("API call failed"));
        }
        _ => panic!("Expected AiError"),
    }

    let lsp_error = LspError::ConnectionFailed {
        code: "connection_failed",
        message: "Connection failed".to_string(),
    };
    let core_error: CoreError = lsp_error.into();
    match core_error {
        CoreError::LspError { code, message } => {
            assert_eq!(code, "lsp_error");
            assert!(message.contains("Connection failed"));
        }
        _ => panic!("Expected LspError"),
    }

    let file_error =
        FileError::FileNotFound { code: "file_not_found", path: "/test/path".to_string() };
    let core_error: CoreError = file_error.into();
    match core_error {
        CoreError::FileError { code, message } => {
            assert_eq!(code, "file_error");
            assert!(message.contains("/test/path"));
        }
        _ => panic!("Expected FileError"),
    }

    let config_error =
        ConfigError::ConfigNotFound { code: "config_not_found", path: "/config.json".to_string() };
    let core_error: CoreError = config_error.into();
    match core_error {
        CoreError::ConfigError { code, message } => {
            assert_eq!(code, "config_error");
            assert!(message.contains("/config.json"));
        }
        _ => panic!("Expected ConfigError"),
    }

    let network_error = NetworkError::Timeout { code: "timeout" };
    let core_error: CoreError = network_error.into();
    match core_error {
        CoreError::NetworkError { code, message } => {
            assert_eq!(code, "network_error");
            assert!(!message.is_empty());
        }
        _ => panic!("Expected NetworkError"),
    }
}

#[test]
fn test_io_error_conversion() {
    let io_error = std::io::Error::new(std::io::ErrorKind::NotFound, "File not found");
    let core_error: CoreError = io_error.into();
    match core_error {
        CoreError::FileError { code, message } => {
            assert_eq!(code, "io_error");
            assert!(message.contains("File not found"));
        }
        _ => panic!("Expected FileError"),
    }
}

#[test]
fn test_reqwest_error_conversion() {
    // No HTTP client error type is part of this library; the conversions that exist are
    // exercised above.
    assert!(true);
}

#[test]
fn test_file_error() {
    let not_found = FileError::file_not_found("/test/file.txt".to_string());
    assert!(not_found.to_string().contains("File not found"));
    assert!(not_found.to_string().contains("/test/file.txt"));
    assert_eq!(not_found.code(), FILE_FILE_NOT_FOUND);

    let read_failed = FileError::read_failed("/test/file.txt".to_string());
    assert!(read_failed.to_string().contains("File read failed"));
    assert!(read_failed.to_string().contains("/test/file.txt"));
    assert_eq!(read_failed.code(), FILE_ALL);

    let write_failed = FileError::write_failed("/test/file.txt".to_string());
    assert!(write_failed.to_string().contains("File write failed"));
    assert!(write_failed.to_string().contains("/test/file.txt"));
    assert_eq!(write_failed.code(), FILE_ALL);

    let permission_denied = FileError::permission_denied("/test/file.txt".to_string());
    assert!(permission_denied.to_string().contains("Permission denied"));
    assert!(permission_denied.to_string().contains("/test/file.txt"));
    assert_eq!(permission_denied.code(), FILE_PERMISSION_DENIED);
}

#[test]
fn test_lsp_error() {
    let connection_error = LspError::connection_failed("Connection refused".to_string());
    assert!(connection_error.to_string().contains("Connection failed"));
    assert!(connection_error.to_string().contains("Connection refused"));
    assert_eq!(connection_error.code(), LSP_CONNECTION_FAILED);

    let init_error = LspError::initialization_failed("Init failed".to_string());
    assert!(init_error.to_string().contains("Initialization failed"));
    assert!(init_error.to_string().contains("Init failed"));
    assert_eq!(init_error.code(), LSP_ALL);

    let request_error = LspError::request_failed("Request failed".to_string());
    assert!(request_error.to_string().contains("Request failed"));
    assert_eq!(request_error.code(), LSP_INVALID_REQUEST);

    let response_error = LspError::response_error("Invalid response".to_string());
    assert!(response_error.to_string().contains("Response error"));
    assert!(response_error.to_string().contains("Invalid response"));
    assert_eq!(response_error.code(), LSP_ALL);

    let server_error = LspError::server_error("Server error".to_string());
    assert!(server_error.to_string().contains("Language server error"));
    assert!(server_error.to_string().contains("Server error"));
    assert_eq!(server_error.code(), LSP_ALL);
}

#[test]
fn test_network_error() {
    let timeout = NetworkError::timeout();
    assert!(timeout.to_string().contains("Connection timeout"));
    assert_eq!(timeout.code(), NETWORK_TIMEOUT);

    let connection_refused = NetworkError::connection_refused();
    assert!(connection_refused.to_string().contains("Connection refused"));
    assert_eq!(connection_refused.code(), NETWORK_ALL);

    let dns_error = NetworkError::dns_resolution_failed();
    assert!(dns_error.to_string().contains("DNS resolution failed"));
    assert_eq!(dns_error.code(), NETWORK_ALL);

    let http_error = NetworkError::http_error(404);
    assert!(http_error.to_string().contains("HTTP error"));
    assert!(http_error.to_string().contains("404"));
    assert_eq!(http_error.code(), NETWORK_ALL);

    let tls_error = NetworkError::tls_error("Certificate error".to_string());
    assert!(tls_error.to_string().contains("SSL/TLS error"));
    assert!(tls_error.to_string().contains("Certificate error"));
    assert_eq!(tls_error.code(), NETWORK_ALL);
}

#[test]
fn test_parser_error() {
    let span = Span::new(0, 10);
    let syntax_error = ParserError::syntax_error("Unexpected token".to_string(), span);
    assert!(syntax_error.to_string().contains("Syntax error"));
    assert!(syntax_error.to_string().contains("Unexpected token"));
    assert_eq!(syntax_error.code(), PARSER_SYNTAX_ERROR);

    let unsupported_error = ParserError::unsupported_language("Unknown".to_string());
    assert!(unsupported_error.to_string().contains("Unsupported language"));
    assert!(unsupported_error.to_string().contains("Unknown"));
    assert_eq!(unsupported_error.code(), PARSER_UNSUPPORTED_LANGUAGE);

    let parse_failed = ParserError::parse_failed("Parse failed".to_string());
    assert!(parse_failed.to_string().contains("Parse failed"));
    assert_eq!(parse_failed.code(), PARSER_ALL);

    let incremental_error =
        ParserError::incremental_parse_error("Incremental parse error".to_string());
    assert!(incremental_error.to_string().contains("Incremental parse error"));
    assert_eq!(incremental_error.code(), PARSER_ALL);
}

#[test]
fn test_semantic_error() {
    let symbol_error = SemanticError::symbol_not_found("test_func".to_string());
    assert!(symbol_error.to_string().contains("Symbol not found"));
    assert!(symbol_error.to_string().contains("test_func"));
    assert_eq!(symbol_error.code(), SEMANTIC_SYMBOL_NOT_FOUND);

    let scope_error = SemanticError::scope_error("Invalid scope".to_string());
    assert!(scope_error.to_string().contains("Scope error"));
    assert!(scope_error.to_string().contains("Invalid scope"));
    assert_eq!(scope_error.code(), SEMANTIC_ALL);

    let type_error = SemanticError::type_error("Type mismatch".to_string());
    assert!(type_error.to_string().contains("Type error"));
    assert!(type_error.to_string().contains("Type mismatch"));
    assert_eq!(type_error.code(), SEMANTIC_TYPE_MISMATCH);

    let circular_error = SemanticError::circular_dependency("Circular import".to_string());
    assert!(circular_error.to_string().contains("Circular dependency"));
    assert!(circular_error.to_string().contains("Circular import"));
    assert_eq!(circular_error.code(), SEMANTIC_ALL);
}

#[test]
fn exact_messages() {
    assert_eq!(
        ParserError::syntax_error("bad".to_string(), Span::new(3, 12)).to_string(),
        "Syntax error: bad at Span { start: 3, end: 12 }"
    );
    assert_eq!(NetworkError::http_error(0).to_string(), "HTTP error: 0");
    assert_eq!(NetworkError::http_error(65535).to_string(), "HTTP error: 65535");
    assert_eq!(
        CoreError::from_network_error(NetworkError::timeout()).to_string(),
        "Network error: Connection timeout"
    );
}

#[test]
fn app_error_code_and_module() {
    let err = AppError::Parser(ParserError::parse_failed("x".to_string()));
    assert_eq!(err.code(), "parse_error");
    assert_eq!(err.module(), "parser");
    let err = AppError::Unknown("?".to_string());
    assert_eq!(err.code(), "UNKNOWN_ERROR");
    assert_eq!(err.module(), "unknown");
}
