//! The error types of the analysis layers, each carrying a machine-readable code and a
//! human-readable message.
use vstd::prelude::*;
use vstd::string::StringExecFns;

use crate::fmt_text::{decimal, decimal_text, span_debug, span_debug_text};
use crate::span::Span;

verus! {
pub const PARSER_SYNTAX_ERROR: &'static str = "parser.syntax_error";
pub const PARSER_UNSUPPORTED_LANGUAGE: &'static str = "parser.unsupported_language";
pub const PARSER_ALL: &'static str = "parse_error";
pub const SEMANTIC_SYMBOL_NOT_FOUND: &'static str = "semantic.symbol_not_found";
pub const SEMANTIC_TYPE_MISMATCH: &'static str = "semantic.type_mismatch";
pub const SEMANTIC_ALL: &'static str = "semantic_error";
pub const AI_API_CALL_FAILED: &'static str = "ai.api_call_failed";
pub const AI_INVALID_RESPONSE: &'static str = "ai.invalid_response";
pub const AI_ALL: &'static str = "ai_error";
pub const LSP_CONNECTION_FAILED: &'static str = "lsp.connection_failed";
pub const LSP_INVALID_REQUEST: &'static str = "lsp.invalid_request";
pub const LSP_ALL: &'static str = "lsp_error";
pub const FILE_FILE_NOT_FOUND: &'static str = "file.file_not_found";
pub const FILE_PERMISSION_DENIED: &'static str = "file.permission_denied";
pub const FILE_ALL: &'static str = "file_error";
pub const CONFIG_CONFIG_NOT_FOUND: &'static str = "config.config_not_found";
pub const CONFIG_INVALID_FORMAT: &'static str = "config.invalid_format";
pub const CONFIG_ALL: &'static str = "config_error";
pub const NETWORK_TIMEOUT: &'static str = "network.timeout";
pub const NETWORK_ALL: &'static str = "network_error";
pub const INTERNAL_PANIC: &'static str = "internal.panic";
pub const INTERNAL_JSON_ERROR: &'static str = "internal.json_error";
pub const INTERNAL_ALL: &'static str = "internal_error";
pub const IO_IO_ERROR: &'static str = "io.io_error";
pub const IO_ALL: &'static str = "io_error";
pub const REQWEST_REQWEST_ERROR: &'static str = "reqwest.reqwest_error";
pub const REQWEST_ALL: &'static str = "reqwest_error";
pub const CONFIG_KEY_NOT_FOUND: &'static str = "config_key_not_found";
pub const CONFIG_DESERIALIZE_ERROR: &'static str = "config_deserialize_error";
pub const CONFIG_SERIALIZE_ERROR: &'static str = "config_serialize_error";

/// An error of an AI service.
#[derive(Debug, PartialEq, Eq)]
pub enum AiError {
    ApiCallFailed { code: &'static str, message: String },
    AuthenticationFailed { code: &'static str, message: String },
    QuotaExceeded { code: &'static str, message: String },
    ResponseParseFailed { code: &'static str, message: String },
    Timeout { code: &'static str, message: String },
    StreamingError { code: &'static str, message: String },
}

impl AiError {
    pub open spec fn spec_code(&self) -> &'static str {
        match self {
            AiError::ApiCallFailed { code, .. } => *code,
            AiError::AuthenticationFailed { code, .. } => *code,
            AiError::QuotaExceeded { code, .. } => *code,
            AiError::ResponseParseFailed { code, .. } => *code,
            AiError::Timeout { code, .. } => *code,
            AiError::StreamingError { code, .. } => *code,
        }
    }

    /// The message: what went wrong, then the detail.
    pub open spec fn spec_message(&self) -> Seq<char> {
        match self {
            AiError::ApiCallFailed { message, .. } => "API call failed: "@ + message@,
            AiError::AuthenticationFailed { message, .. } => "Authentication failed: "@ + message@,
            AiError::QuotaExceeded { message, .. } => "Quota exceeded: "@ + message@,
            AiError::ResponseParseFailed { message, .. } => "Response parse failed: "@ + message@,
            AiError::Timeout { message, .. } => "Timeout: "@ + message@,
            AiError::StreamingError { message, .. } => "Streaming error: "@ + message@,
        }
    }

    pub fn api_call_failed(message: String) -> (r: AiError)
        ensures
            r == (AiError::ApiCallFailed { code: AI_API_CALL_FAILED, message }),
    {
        AiError::ApiCallFailed { code: AI_API_CALL_FAILED, message }
    }

    pub fn authentication_failed(message: String) -> (r: AiError)
        ensures
            r == (AiError::AuthenticationFailed { code: AI_ALL, message }),
    {
        AiError::AuthenticationFailed { code: AI_ALL, message }
    }

    pub fn quota_exceeded(message: String) -> (r: AiError)
        ensures
            r == (AiError::QuotaExceeded { code: AI_ALL, message }),
    {
        AiError::QuotaExceeded { code: AI_ALL, message }
    }

    pub fn response_parse_failed(message: String) -> (r: AiError)
        ensures
            r == (AiError::ResponseParseFailed { code: AI_INVALID_RESPONSE, message }),
    {
        AiError::ResponseParseFailed { code: AI_INVALID_RESPONSE, message }
    }

    pub fn timeout(message: String) -> (r: AiError)
        ensures
            r == (AiError::Timeout { code: AI_ALL, message }),
    {
        AiError::Timeout { code: AI_ALL, message }
    }

    pub fn streaming_error(message: String) -> (r: AiError)
        ensures
            r == (AiError::StreamingError { code: AI_ALL, message }),
    {
        AiError::StreamingError { code: AI_ALL, message }
    }

    /// The error code.
    pub fn code(&self) -> (r: &'static str)
        ensures
            r == self.spec_code(),
    {
        match self {
            AiError::ApiCallFailed { code, .. } => code,
            AiError::AuthenticationFailed { code, .. } => code,
            AiError::QuotaExceeded { code, .. } => code,
            AiError::ResponseParseFailed { code, .. } => code,
            AiError::Timeout { code, .. } => code,
            AiError::StreamingError { code, .. } => code,
        }
    }

    /// The message of the error.
    pub fn to_string(&self) -> (r: String)
        ensures
            r@ == self.spec_message(),
    {
        match self {
            AiError::ApiCallFailed { message, .. } => {
                let mut text = "API call failed: ".to_owned();
                text.append(message.as_str());
                text
            },
            AiError::AuthenticationFailed { message, .. } => {
                let mut text = "Authentication failed: ".to_owned();
                text.append(message.as_str());
                text
            },
            AiError::QuotaExceeded { message, .. } => {
                let mut text = "Quota exceeded: ".to_owned();
                text.append(message.as_str());
                text
            },
            AiError::ResponseParseFailed { message, .. } => {
                let mut text = "Response parse failed: ".to_owned();
                text.append(message.as_str());
                text
            },
            AiError::Timeout { message, .. } => {
                let mut text = "Timeout: ".to_owned();
                text.append(message.as_str());
                text
            },
            AiError::StreamingError { message, .. } => {
                let mut text = "Streaming error: ".to_owned();
                text.append(message.as_str());
                text
            },
        }
    }
}

/// An error of the configuration.
#[derive(Debug, PartialEq, Eq)]
pub enum ConfigError {
    ConfigNotFound { code: &'static str, path: String },
    ParseFailed { code: &'static str, message: String },
    ValidationFailed { code: &'static str, message: String },
    MissingRequired { code: &'static str, key: String },
}

impl ConfigError {
    pub open spec fn spec_code(&self) -> &'static str {
        match self {
            ConfigError::ConfigNotFound { code, .. } => *code,
            ConfigError::ParseFailed { code, .. } => *code,
            ConfigError::ValidationFailed { code, .. } => *code,
            ConfigError::MissingRequired { code, .. } => *code,
        }
    }

    /// The message: what went wrong, then the detail.
    pub open spec fn spec_message(&self) -> Seq<char> {
        match self {
            ConfigError::ConfigNotFound { path, .. } => "Configuration file not found: "@ + path@,
            ConfigError::ParseFailed { message, .. } => "Configuration parse failed: "@ + message@,
            ConfigError::ValidationFailed { message, .. } => "Configuration validation failed: "@ + message@,
            ConfigError::MissingRequired { key, .. } => "Missing required configuration: "@ + key@,
        }
    }

    pub fn config_not_found(path: String) -> (r: ConfigError)
        ensures
            r == (ConfigError::ConfigNotFound { code: CONFIG_CONFIG_NOT_FOUND, path }),
    {
        ConfigError::ConfigNotFound { code: CONFIG_CONFIG_NOT_FOUND, path }
    }

    pub fn parse_failed(message: String) -> (r: ConfigError)
        ensures
            r == (ConfigError::ParseFailed { code: CONFIG_INVALID_FORMAT, message }),
    {
        ConfigError::ParseFailed { code: CONFIG_INVALID_FORMAT, message }
    }

    pub fn validation_failed(message: String) -> (r: ConfigError)
        ensures
            r == (ConfigError::ValidationFailed { code: CONFIG_ALL, message }),
    {
        ConfigError::ValidationFailed { code: CONFIG_ALL, message }
    }

    pub fn missing_required(key: String) -> (r: ConfigError)
        ensures
            r == (ConfigError::MissingRequired { code: CONFIG_KEY_NOT_FOUND, key }),
    {
        ConfigError::MissingRequired { code: CONFIG_KEY_NOT_FOUND, key }
    }

    /// The error code.
    pub fn code(&self) -> (r: &'static str)
        ensures
            r == self.spec_code(),
    {
        match self {
            ConfigError::ConfigNotFound { code, .. } => code,
            ConfigError::ParseFailed { code, .. } => code,
            ConfigError::ValidationFailed { code, .. } => code,
            ConfigError::MissingRequired { code, .. } => code,
        }
    }

    /// The message of the error.
    pub fn to_string(&self) -> (r: String)
        ensures
            r@ == self.spec_message(),
    {
        match self {
            ConfigError::ConfigNotFound { path, .. } => {
                let mut text = "Configuration file not found: ".to_owned();
                text.append(path.as_str());
                text
            },
            ConfigError::ParseFailed { message, .. } => {
                let mut text = "Configuration parse failed: ".to_owned();
                text.append(message.as_str());
                text
            },
            ConfigError::ValidationFailed { message, .. } => {
                let mut text = "Configuration validation failed: ".to_owned();
                text.append(message.as_str());
                text
            },
            ConfigError::MissingRequired { key, .. } => {
                let mut text = "Missing required configuration: ".to_owned();
                text.append(key.as_str());
                text
            },
        }
    }
}

/// An error of the file system.
#[derive(Debug, PartialEq, Eq)]
pub enum FileError {
    FileNotFound { code: &'static str, path: String },
    ReadFailed { code: &'static str, path: String },
    WriteFailed { code: &'static str, path: String },
    PermissionDenied { code: &'static str, path: String },
}

impl FileError {
    pub open spec fn spec_code(&self) -> &'static str {
        match self {
            FileError::FileNotFound { code, .. } => *code,
            FileError::ReadFailed { code, .. } => *code,
            FileError::WriteFailed { code, .. } => *code,
            FileError::PermissionDenied { code, .. } => *code,
        }
    }

    /// The message: what went wrong, then the detail.
    pub open spec fn spec_message(&self) -> Seq<char> {
        match self {
            FileError::FileNotFound { path, .. } => "File not found: "@ + path@,
            FileError::ReadFailed { path, .. } => "File read failed: "@ + path@,
            FileError::WriteFailed { path, .. } => "File write failed: "@ + path@,
            FileError::PermissionDenied { path, .. } => "Permission denied: "@ + path@,
        }
    }

    pub fn file_not_found(path: String) -> (r: FileError)
        ensures
            r == (FileError::FileNotFound { code: FILE_FILE_NOT_FOUND, path }),
    {
        FileError::FileNotFound { code: FILE_FILE_NOT_FOUND, path }
    }

    pub fn read_failed(path: String) -> (r: FileError)
        ensures
            r == (FileError::ReadFailed { code: FILE_ALL, path }),
    {
        FileError::ReadFailed { code: FILE_ALL, path }
    }

    pub fn write_failed(path: String) -> (r: FileError)
        ensures
            r == (FileError::WriteFailed { code: FILE_ALL, path }),
    {
        FileError::WriteFailed { code: FILE_ALL, path }
    }

    pub fn permission_denied(path: String) -> (r: FileError)
        ensures
            r == (FileError::PermissionDenied { code: FILE_PERMISSION_DENIED, path }),
    {
        FileError::PermissionDenied { code: FILE_PERMISSION_DENIED, path }
    }

    /// The error code.
    pub fn code(&self) -> (r: &'static str)
        ensures
            r == self.spec_code(),
    {
        match self {
            FileError::FileNotFound { code, .. } => code,
            FileError::ReadFailed { code, .. } => code,
            FileError::WriteFailed { code, .. } => code,
            FileError::PermissionDenied { code, .. } => code,
        }
    }

    /// The message of the error.
    pub fn to_string(&self) -> (r: String)
        ensures
            r@ == self.spec_message(),
    {
        match self {
            FileError::FileNotFound { path, .. } => {
                let mut text = "File not found: ".to_owned();
                text.append(path.as_str());
                text
            },
            FileError::ReadFailed { path, .. } => {
                let mut text = "File read failed: ".to_owned();
                text.append(path.as_str());
                text
            },
            FileError::WriteFailed { path, .. } => {
                let mut text = "File write failed: ".to_owned();
                text.append(path.as_str());
                text
            },
            FileError::PermissionDenied { path, .. } => {
                let mut text = "Permission denied: ".to_owned();
                text.append(path.as_str());
                text
            },
        }
    }
}

/// An error of a language server connection.
#[derive(Debug, PartialEq, Eq)]
pub enum LspError {
    ConnectionFailed { code: &'static str, message: String },
    InitializationFailed { code: &'static str, message: String },
    RequestFailed { code: &'static str, message: String },
    ResponseError { code: &'static str, message: String },
    ServerError { code: &'static str, message: String },
}

impl LspError {
    pub open spec fn spec_code(&self) -> &'static str {
        match self {
            LspError::ConnectionFailed { code, .. } => *code,
            LspError::InitializationFailed { code, .. } => *code,
            LspError::RequestFailed { code, .. } => *code,
            LspError::ResponseError { code, .. } => *code,
            LspError::ServerError { code, .. } => *code,
        }
    }

    /// The message: what went wrong, then the detail.
    pub open spec fn spec_message(&self) -> Seq<char> {
        match self {
            LspError::ConnectionFailed { message, .. } => "Connection failed: "@ + message@,
            LspError::InitializationFailed { message, .. } => "Initialization failed: "@ + message@,
            LspError::RequestFailed { message, .. } => "Request failed: "@ + message@,
            LspError::ResponseError { message, .. } => "Response error: "@ + message@,
            LspError::ServerError { message, .. } => "Language server error: "@ + message@,
        }
    }

    pub fn connection_failed(message: String) -> (r: LspError)
        ensures
            r == (LspError::ConnectionFailed { code: LSP_CONNECTION_FAILED, message }),
    {
        LspError::ConnectionFailed { code: LSP_CONNECTION_FAILED, message }
    }

    pub fn initialization_failed(message: String) -> (r: LspError)
        ensures
            r == (LspError::InitializationFailed { code: LSP_ALL, message }),
    {
        LspError::InitializationFailed { code: LSP_ALL, message }
    }

    pub fn request_failed(message: String) -> (r: LspError)
        ensures
            r == (LspError::RequestFailed { code: LSP_INVALID_REQUEST, message }),
    {
        LspError::RequestFailed { code: LSP_INVALID_REQUEST, message }
    }

    pub fn response_error(message: String) -> (r: LspError)
        ensures
            r == (LspError::ResponseError { code: LSP_ALL, message }),
    {
        LspError::ResponseError { code: LSP_ALL, message }
    }

    pub fn server_error(message: String) -> (r: LspError)
        ensures
            r == (LspError::ServerError { code: LSP_ALL, message }),
    {
        LspError::ServerError { code: LSP_ALL, message }
    }

    /// The error code.
    pub fn code(&self) -> (r: &'static str)
        ensures
            r == self.spec_code(),
    {
        match self {
            LspError::ConnectionFailed { code, .. } => code,
            LspError::InitializationFailed { code, .. } => code,
            LspError::RequestFailed { code, .. } => code,
            LspError::ResponseError { code, .. } => code,
            LspError::ServerError { code, .. } => code,
        }
    }

    /// The message of the error.
    pub fn to_string(&self) -> (r: String)
        ensures
            r@ == self.spec_message(),
    {
        match self {
            LspError::ConnectionFailed { message, .. } => {
                let mut text = "Connection failed: ".to_owned();
                text.append(message.as_str());
                text
            },
            LspError::InitializationFailed { message, .. } => {
                let mut text = "Initialization failed: ".to_owned();
                text.append(message.as_str());
                text
            },
            LspError::RequestFailed { message, .. } => {
                let mut text = "Request failed: ".to_owned();
                text.append(message.as_str());
                text
            },
            LspError::ResponseError { message, .. } => {
                let mut text = "Response error: ".to_owned();
                text.append(message.as_str());
                text
            },
            LspError::ServerError { message, .. } => {
                let mut text = "Language server error: ".to_owned();
                text.append(message.as_str());
                text
            },
        }
    }
}

/// An error of semantic analysis.
#[derive(Debug, PartialEq, Eq)]
pub enum SemanticError {
    SymbolNotFound { code: &'static str, symbol_name: String },
    ScopeError { code: &'static str, message: String },
    TypeError { code: &'static str, message: String },
    CircularDependency { code: &'static str, message: String },
}

impl SemanticError {
    pub open spec fn spec_code(&self) -> &'static str {
        match self {
            SemanticError::SymbolNotFound { code, .. } => *code,
            SemanticError::ScopeError { code, .. } => *code,
            SemanticError::TypeError { code, .. } => *code,
            SemanticError::CircularDependency { code, .. } => *code,
        }
    }

    /// The message: what went wrong, then the detail.
    pub open spec fn spec_message(&self) -> Seq<char> {
        match self {
            SemanticError::SymbolNotFound { symbol_name, .. } => "Symbol not found: "@ + symbol_name@,
            SemanticError::ScopeError { message, .. } => "Scope error: "@ + message@,
            SemanticError::TypeError { message, .. } => "Type error: "@ + message@,
            SemanticError::CircularDependency { message, .. } => "Circular dependency: "@ + message@,
        }
    }

    pub fn symbol_not_found(symbol_name: String) -> (r: SemanticError)
        ensures
            r == (SemanticError::SymbolNotFound { code: SEMANTIC_SYMBOL_NOT_FOUND, symbol_name }),
    {
        SemanticError::SymbolNotFound { code: SEMANTIC_SYMBOL_NOT_FOUND, symbol_name }
    }

    pub fn scope_error(message: String) -> (r: SemanticError)
        ensures
            r == (SemanticError::ScopeError { code: SEMANTIC_ALL, message }),
    {
        SemanticError::ScopeError { code: SEMANTIC_ALL, message }
    }

    pub fn type_error(message: String) -> (r: SemanticError)
        ensures
            r == (SemanticError::TypeError { code: SEMANTIC_TYPE_MISMATCH, message }),
    {
        SemanticError::TypeError { code: SEMANTIC_TYPE_MISMATCH, message }
    }

    pub fn circular_dependency(message: String) -> (r: SemanticError)
        ensures
            r == (SemanticError::CircularDependency { code: SEMANTIC_ALL, message }),
    {
        SemanticError::CircularDependency { code: SEMANTIC_ALL, message }
    }

    /// The error code.
    pub fn code(&self) -> (r: &'static str)
        ensures
            r == self.spec_code(),
    {
        match self {
            SemanticError::SymbolNotFound { code, .. } => code,
            SemanticError::ScopeError { code, .. } => code,
            SemanticError::TypeError { code, .. } => code,
            SemanticError::CircularDependency { code, .. } => code,
        }
    }

    /// The message of the error.
    pub fn to_string(&self) -> (r: String)
        ensures
            r@ == self.spec_message(),
    {
        match self {
            SemanticError::SymbolNotFound { symbol_name, .. } => {
                let mut text = "Symbol not found: ".to_owned();
                text.append(symbol_name.as_str());
                text
            },
            SemanticError::ScopeError { message, .. } => {
                let mut text = "Scope error: ".to_owned();
                text.append(message.as_str());
                text
            },
            SemanticError::TypeError { message, .. } => {
                let mut text = "Type error: ".to_owned();
                text.append(message.as_str());
                text
            },
            SemanticError::CircularDependency { message, .. } => {
                let mut text = "Circular dependency: ".to_owned();
                text.append(message.as_str());
                text
            },
        }
    }
}

/// An error of the parser.
#[derive(Debug, PartialEq, Eq)]
pub enum ParserError {
    SyntaxError { code: &'static str, message: String, span: Span },
    UnsupportedLanguage { code: &'static str, language: String },
    ParseFailed { code: &'static str, message: String },
    IncrementalParseError { code: &'static str, message: String },
}

impl ParserError {
    pub open spec fn spec_code(&self) -> &'static str {
        match self {
            ParserError::SyntaxError { code, .. } => *code,
            ParserError::UnsupportedLanguage { code, .. } => *code,
            ParserError::ParseFailed { code, .. } => *code,
            ParserError::IncrementalParseError { code, .. } => *code,
        }
    }

    /// The message: what went wrong, then the detail.
    pub open spec fn spec_message(&self) -> Seq<char> {
        match self {
            ParserError::SyntaxError { message, span, .. } => "Syntax error: "@ + message@
                + " at "@ + span_debug_text(span.start as nat, span.end as nat),
            ParserError::UnsupportedLanguage { language, .. } => "Unsupported language: "@
                + language@,
            ParserError::ParseFailed { message, .. } => "Parse failed: "@ + message@,
            ParserError::IncrementalParseError { message, .. } => "Incremental parse error: "@
                + message@,
        }
    }

    pub open spec fn syntax_error_spec(message: String, span: Span) -> ParserError {
        ParserError::SyntaxError { code: PARSER_SYNTAX_ERROR, message, span }
    }

    pub fn syntax_error(message: String, span: Span) -> (r: ParserError)
        ensures
            r == Self::syntax_error_spec(message, span),
    {
        ParserError::SyntaxError { code: PARSER_SYNTAX_ERROR, message, span }
    }

    pub fn unsupported_language(language: String) -> (r: ParserError)
        ensures
            r == (ParserError::UnsupportedLanguage { code: PARSER_UNSUPPORTED_LANGUAGE, language }),
    {
        ParserError::UnsupportedLanguage { code: PARSER_UNSUPPORTED_LANGUAGE, language }
    }

    pub fn parse_failed(message: String) -> (r: ParserError)
        ensures
            r == (ParserError::ParseFailed { code: PARSER_ALL, message }),
    {
        ParserError::ParseFailed { code: PARSER_ALL, message }
    }

    pub fn incremental_parse_error(message: String) -> (r: ParserError)
        ensures
            r == (ParserError::IncrementalParseError { code: PARSER_ALL, message }),
    {
        ParserError::IncrementalParseError { code: PARSER_ALL, message }
    }

    /// The error code.
    pub fn code(&self) -> (r: &'static str)
        ensures
            r == self.spec_code(),
    {
        match self {
            ParserError::SyntaxError { code, .. } => code,
            ParserError::UnsupportedLanguage { code, .. } => code,
            ParserError::ParseFailed { code, .. } => code,
            ParserError::IncrementalParseError { code, .. } => code,
        }
    }

    /// The message of the error.
    pub fn to_string(&self) -> (r: String)
        ensures
            r@ == self.spec_message(),
    {
        match self {
            ParserError::SyntaxError { message, span, .. } => {
                let mut text = "Syntax error: ".to_owned();
                text.append(message.as_str());
                text.append(" at ");
                text.append(span_debug(span.start, span.end).as_str());
                text
            },
            ParserError::UnsupportedLanguage { language, .. } => {
                let mut text = "Unsupported language: ".to_owned();
                text.append(language.as_str());
                text
            },
            ParserError::ParseFailed { message, .. } => {
                let mut text = "Parse failed: ".to_owned();
                text.append(message.as_str());
                text
            },
            ParserError::IncrementalParseError { message, .. } => {
                let mut text = "Incremental parse error: ".to_owned();
                text.append(message.as_str());
                text
            },
        }
    }
}

/// An error of the network.
#[derive(Debug, PartialEq, Eq)]
pub enum NetworkError {
    Timeout { code: &'static str },
    ConnectionRefused { code: &'static str },
    DnsResolutionFailed { code: &'static str },
    HttpError { code: &'static str, status: u16 },
    TlsError { code: &'static str, message: String },
}

impl NetworkError {
    pub open spec fn spec_code(&self) -> &'static str {
        match self {
            NetworkError::Timeout { code } => *code,
            NetworkError::ConnectionRefused { code } => *code,
            NetworkError::DnsResolutionFailed { code } => *code,
            NetworkError::HttpError { code, .. } => *code,
            NetworkError::TlsError { code, .. } => *code,
        }
    }

    /// The message: what went wrong, then the detail.
    pub open spec fn spec_message(&self) -> Seq<char> {
        match self {
            NetworkError::Timeout { .. } => "Connection timeout"@,
            NetworkError::ConnectionRefused { .. } => "Connection refused"@,
            NetworkError::DnsResolutionFailed { .. } => "DNS resolution failed"@,
            NetworkError::HttpError { status, .. } => "HTTP error: "@ + decimal_text(*status as nat),
            NetworkError::TlsError { message, .. } => "SSL/TLS error: "@ + message@,
        }
    }

    pub fn timeout() -> (r: NetworkError)
        ensures
            r == (NetworkError::Timeout { code: NETWORK_TIMEOUT }),
    {
        NetworkError::Timeout { code: NETWORK_TIMEOUT }
    }

    pub fn connection_refused() -> (r: NetworkError)
        ensures
            r == (NetworkError::ConnectionRefused { code: NETWORK_ALL }),
    {
        NetworkError::ConnectionRefused { code: NETWORK_ALL }
    }

    pub fn dns_resolution_failed() -> (r: NetworkError)
        ensures
            r == (NetworkError::DnsResolutionFailed { code: NETWORK_ALL }),
    {
        NetworkError::DnsResolutionFailed { code: NETWORK_ALL }
    }

    pub fn http_error(status: u16) -> (r: NetworkError)
        ensures
            r == (NetworkError::HttpError { code: NETWORK_ALL, status }),
    {
        NetworkError::HttpError { code: NETWORK_ALL, status }
    }

    pub fn tls_error(message: String) -> (r: NetworkError)
        ensures
            r == (NetworkError::TlsError { code: NETWORK_ALL, message }),
    {
        NetworkError::TlsError { code: NETWORK_ALL, message }
    }

    /// The error code.
    pub fn code(&self) -> (r: &'static str)
        ensures
            r == self.spec_code(),
    {
        match self {
            NetworkError::Timeout { code } => code,
            NetworkError::ConnectionRefused { code } => code,
            NetworkError::DnsResolutionFailed { code } => code,
            NetworkError::HttpError { code, .. } => code,
            NetworkError::TlsError { code, .. } => code,
        }
    }

    /// The message of the error.
    pub fn to_string(&self) -> (r: String)
        ensures
            r@ == self.spec_message(),
    {
        match self {
            NetworkError::Timeout { .. } => "Connection timeout".to_owned(),
            NetworkError::ConnectionRefused { .. } => "Connection refused".to_owned(),
            NetworkError::DnsResolutionFailed { .. } => "DNS resolution failed".to_owned(),
            NetworkError::HttpError { status, .. } => {
                let mut text = "HTTP error: ".to_owned();
                text.append(decimal(*status as u64).as_str());
                text
            },
            NetworkError::TlsError { message, .. } => {
                let mut text = "SSL/TLS error: ".to_owned();
                text.append(message.as_str());
                text
            },
        }
    }
}

} // verus!

verus! {

/// The error type of the core layer: a kind, a code and a message.
#[derive(Debug, PartialEq, Eq)]
pub enum CoreError {
    ParseError { code: &'static str, message: String },
    SemanticError { code: &'static str, message: String },
    AiError { code: &'static str, message: String },
    LspError { code: &'static str, message: String },
    FileError { code: &'static str, message: String },
    ConfigError { code: &'static str, message: String },
    NetworkError { code: &'static str, message: String },
    InternalError { code: &'static str, message: String },
}

impl CoreError {
    pub open spec fn spec_code(&self) -> &'static str {
        match self {
            CoreError::ParseError { code, .. } => *code,
            CoreError::SemanticError { code, .. } => *code,
            CoreError::AiError { code, .. } => *code,
            CoreError::LspError { code, .. } => *code,
            CoreError::FileError { code, .. } => *code,
            CoreError::ConfigError { code, .. } => *code,
            CoreError::NetworkError { code, .. } => *code,
            CoreError::InternalError { code, .. } => *code,
        }
    }

    /// The message: the kind of error, then the detail.
    pub open spec fn spec_message(&self) -> Seq<char> {
        match self {
            CoreError::ParseError { message, .. } => "Parse error: "@ + message@,
            CoreError::SemanticError { message, .. } => "Semantic error: "@ + message@,
            CoreError::AiError { message, .. } => "AI service error: "@ + message@,
            CoreError::LspError { message, .. } => "LSP error: "@ + message@,
            CoreError::FileError { message, .. } => "File error: "@ + message@,
            CoreError::ConfigError { message, .. } => "Config error: "@ + message@,
            CoreError::NetworkError { message, .. } => "Network error: "@ + message@,
            CoreError::InternalError { message, .. } => "Internal error: "@ + message@,
        }
    }

    /// The error code.
    pub fn code(&self) -> (r: &'static str)
        ensures
            r == self.spec_code(),
    {
        match self {
            CoreError::ParseError { code, .. } => code,
            CoreError::SemanticError { code, .. } => code,
            CoreError::AiError { code, .. } => code,
            CoreError::LspError { code, .. } => code,
            CoreError::FileError { code, .. } => code,
            CoreError::ConfigError { code, .. } => code,
            CoreError::NetworkError { code, .. } => code,
            CoreError::InternalError { code, .. } => code,
        }
    }

    /// The message of the error.
    pub fn to_string(&self) -> (r: String)
        ensures
            r@ == self.spec_message(),
    {
        match self {
            CoreError::ParseError { message, .. } => {
                let mut text = "Parse error: ".to_owned();
                text.append(message.as_str());
                text
            },
            CoreError::SemanticError { message, .. } => {
                let mut text = "Semantic error: ".to_owned();
                text.append(message.as_str());
                text
            },
            CoreError::AiError { message, .. } => {
                let mut text = "AI service error: ".to_owned();
                text.append(message.as_str());
                text
            },
            CoreError::LspError { message, .. } => {
                let mut text = "LSP error: ".to_owned();
                text.append(message.as_str());
                text
            },
            CoreError::FileError { message, .. } => {
                let mut text = "File error: ".to_owned();
                text.append(message.as_str());
                text
            },
            CoreError::ConfigError { message, .. } => {
                let mut text = "Config error: ".to_owned();
                text.append(message.as_str());
                text
            },
            CoreError::NetworkError { message, .. } => {
                let mut text = "Network error: ".to_owned();
                text.append(message.as_str());
                text
            },
            CoreError::InternalError { message, .. } => {
                let mut text = "Internal error: ".to_owned();
                text.append(message.as_str());
                text
            },
        }
    }

    /// The core error for a ParserError, with the code `parse_error` and its message.
    pub fn from_parser_error(err: ParserError) -> (r: CoreError)
        ensures
            r matches CoreError::ParseError { code, message } && code == "parse_error" && message@
                == err.spec_message(),
    {
        CoreError::ParseError { code: "parse_error", message: err.to_string() }
    }

    /// The core error for a SemanticError, with the code `semantic_error` and its message.
    pub fn from_semantic_error(err: SemanticError) -> (r: CoreError)
        ensures
            r matches CoreError::SemanticError { code, message } && code == "semantic_error" && message@
                == err.spec_message(),
    {
        CoreError::SemanticError { code: "semantic_error", message: err.to_string() }
    }

    /// The core error for a AiError, with the code `ai_error` and its message.
    pub fn from_ai_error(err: AiError) -> (r: CoreError)
        ensures
            r matches CoreError::AiError { code, message } && code == "ai_error" && message@
                == err.spec_message(),
    {
        CoreError::AiError { code: "ai_error", message: err.to_string() }
    }

    /// The core error for a LspError, with the code `lsp_error` and its message.
    pub fn from_lsp_error(err: LspError) -> (r: CoreError)
        ensures
            r matches CoreError::LspError { code, message } && code == "lsp_error" && message@
                == err.spec_message(),
    {
        CoreError::LspError { code: "lsp_error", message: err.to_string() }
    }

    /// The core error for a FileError, with the code `file_error` and its message.
    pub fn from_file_error(err: FileError) -> (r: CoreError)
        ensures
            r matches CoreError::FileError { code, message } && code == "file_error" && message@
                == err.spec_message(),
    {
        CoreError::FileError { code: "file_error", message: err.to_string() }
    }

    /// The core error for a ConfigError, with the code `config_error` and its message.
    pub fn from_config_error(err: ConfigError) -> (r: CoreError)
        ensures
            r matches CoreError::ConfigError { code, message } && code == "config_error" && message@
                == err.spec_message(),
    {
        CoreError::ConfigError { code: "config_error", message: err.to_string() }
    }

    /// The core error for a NetworkError, with the code `network_error` and its message.
    pub fn from_network_error(err: NetworkError) -> (r: CoreError)
        ensures
            r matches CoreError::NetworkError { code, message } && code == "network_error" && message@
                == err.spec_message(),
    {
        CoreError::NetworkError { code: "network_error", message: err.to_string() }
    }
}

/// The conversion behind `?`; its contract is stated by [`CoreError::from_parser_error`].
impl From<ParserError> for CoreError {
    fn from(err: ParserError) -> (r: CoreError) {
        CoreError::from_parser_error(err)
    }
}

impl vstd::std_specs::convert::FromSpecImpl<ParserError> for CoreError {
    open spec fn obeys_from_spec() -> bool {
        false
    }

    open spec fn from_spec(err: ParserError) -> CoreError {
        vstd::pervasive::arbitrary()
    }
}

/// The conversion behind `?`; its contract is stated by [`CoreError::from_semantic_error`].
impl From<SemanticError> for CoreError {
    fn from(err: SemanticError) -> (r: CoreError) {
        CoreError::from_semantic_error(err)
    }
}

impl vstd::std_specs::convert::FromSpecImpl<SemanticError> for CoreError {
    open spec fn obeys_from_spec() -> bool {
        false
    }

    open spec fn from_spec(err: SemanticError) -> CoreError {
        vstd::pervasive::arbitrary()
    }
}

/// The conversion behind `?`; its contract is stated by [`CoreError::from_ai_error`].
impl From<AiError> for CoreError {
    fn from(err: AiError) -> (r: CoreError) {
        CoreError::from_ai_error(err)
    }
}

impl vstd::std_specs::convert::FromSpecImpl<AiError> for CoreError {
    open spec fn obeys_from_spec() -> bool {
        false
    }

    open spec fn from_spec(err: AiError) -> CoreError {
        vstd::pervasive::arbitrary()
    }
}

/// The conversion behind `?`; its contract is stated by [`CoreError::from_lsp_error`].
impl From<LspError> for CoreError {
    fn from(err: LspError) -> (r: CoreError) {
        CoreError::from_lsp_error(err)
    }
}

impl vstd::std_specs::convert::FromSpecImpl<LspError> for CoreError {
    open spec fn obeys_from_spec() -> bool {
        false
    }

    open spec fn from_spec(err: LspError) -> CoreError {
        vstd::pervasive::arbitrary()
    }
}

/// The conversion behind `?`; its contract is stated by [`CoreError::from_file_error`].
impl From<FileError> for CoreError {
    fn from(err: FileError) -> (r: CoreError) {
        CoreError::from_file_error(err)
    }
}

impl vstd::std_specs::convert::FromSpecImpl<FileError> for CoreError {
    open spec fn obeys_from_spec() -> bool {
        false
    }

    open spec fn from_spec(err: FileError) -> CoreError {
        vstd::pervasive::arbitrary()
    }
}

/// The conversion behind `?`; its contract is stated by [`CoreError::from_config_error`].
impl From<ConfigError> for CoreError {
    fn from(err: ConfigError) -> (r: CoreError) {
        CoreError::from_config_error(err)
    }
}

impl vstd::std_specs::convert::FromSpecImpl<ConfigError> for CoreError {
    open spec fn obeys_from_spec() -> bool {
        false
    }

    open spec fn from_spec(err: ConfigError) -> CoreError {
        vstd::pervasive::arbitrary()
    }
}

/// The conversion behind `?`; its contract is stated by [`CoreError::from_network_error`].
impl From<NetworkError> for CoreError {
    fn from(err: NetworkError) -> (r: CoreError) {
        CoreError::from_network_error(err)
    }
}

impl vstd::std_specs::convert::FromSpecImpl<NetworkError> for CoreError {
    open spec fn obeys_from_spec() -> bool {
        false
    }

    open spec fn from_spec(err: NetworkError) -> CoreError {
        vstd::pervasive::arbitrary()
    }
}

} // verus!

verus! {

#[verifier::external_type_specification]
#[verifier::external_body]
pub struct ExIoError(std::io::Error);

/// Relies on the `Display` impl of `std::io::Error`: the description of the error.
#[verifier::external_body]
fn io_error_text(err: &std::io::Error) -> (r: String) {
    err.to_string()
}

impl CoreError {
    /// The core error for an I/O error: a file error with the code `io_error` and the
    /// description of the I/O error.
    pub fn from_io_error(err: std::io::Error) -> (r: CoreError)
        ensures
            r matches CoreError::FileError { code, .. } && code == "io_error",
    {
        CoreError::FileError { code: "io_error", message: io_error_text(&err) }
    }
}

/// The conversion behind `?`; its contract is stated by [`CoreError::from_io_error`].
impl From<std::io::Error> for CoreError {
    fn from(err: std::io::Error) -> (r: CoreError) {
        CoreError::from_io_error(err)
    }
}

impl vstd::std_specs::convert::FromSpecImpl<std::io::Error> for CoreError {
    open spec fn obeys_from_spec() -> bool {
        false
    }

    open spec fn from_spec(err: std::io::Error) -> CoreError {
        vstd::pervasive::arbitrary()
    }
}

/// An error of any layer.
#[derive(Debug)]
pub enum AppError {
    Core(CoreError),
    Ai(AiError),
    Config(ConfigError),
    File(FileError),
    Lsp(LspError),
    Network(NetworkError),
    Parser(ParserError),
    Semantic(SemanticError),
    Unknown(String),
}

impl AppError {
    /// The code of the wrapped error; `UNKNOWN_ERROR` for an unknown one.
    pub fn code(&self) -> (r: &str)
        ensures
            r@ == match self {
                AppError::Core(e) => e.spec_code()@,
                AppError::Ai(e) => e.spec_code()@,
                AppError::Config(e) => e.spec_code()@,
                AppError::File(e) => e.spec_code()@,
                AppError::Lsp(e) => e.spec_code()@,
                AppError::Network(e) => e.spec_code()@,
                AppError::Parser(e) => e.spec_code()@,
                AppError::Semantic(e) => e.spec_code()@,
                AppError::Unknown(_) => "UNKNOWN_ERROR"@,
            },
    {
        match self {
            AppError::Core(e) => e.code(),
            AppError::Ai(e) => e.code(),
            AppError::Config(e) => e.code(),
            AppError::File(e) => e.code(),
            AppError::Lsp(e) => e.code(),
            AppError::Network(e) => e.code(),
            AppError::Parser(e) => e.code(),
            AppError::Semantic(e) => e.code(),
            AppError::Unknown(_) => "UNKNOWN_ERROR",
        }
    }

    /// The layer the error comes from.
    pub fn module(&self) -> (r: &str)
        ensures
            r@ == match self {
                AppError::Core(_) => "core"@,
                AppError::Ai(_) => "ai"@,
                AppError::Config(_) => "config"@,
                AppError::File(_) => "file"@,
                AppError::Lsp(_) => "lsp"@,
                AppError::Network(_) => "network"@,
                AppError::Parser(_) => "parser"@,
                AppError::Semantic(_) => "semantic"@,
                AppError::Unknown(_) => "unknown"@,
            },
    {
        match self {
            AppError::Core(_) => "core",
            AppError::Ai(_) => "ai",
            AppError::Config(_) => "config",
            AppError::File(_) => "file",
            AppError::Lsp(_) => "lsp",
            AppError::Network(_) => "network",
            AppError::Parser(_) => "parser",
            AppError::Semantic(_) => "semantic",
            AppError::Unknown(_) => "unknown",
        }
    }
}

} // verus!

verus! {

pub type CoreResult<T> = Result<T, CoreError>;

pub type ParserResult<T> = Result<T, ParserError>;

pub type SemanticResult<T> = Result<T, SemanticError>;

pub type AiResult<T> = Result<T, AiError>;

pub type LspResult<T> = Result<T, LspError>;

pub type FileResult<T> = Result<T, FileError>;

pub type ConfigResult<T> = Result<T, ConfigError>;

pub type NetworkResult<T> = Result<T, NetworkError>;

pub type AppResult<T> = Result<T, AppError>;

} // verus!
