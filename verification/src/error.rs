//! Error types of the library.

use vstd::prelude::*;

verus! {

/// VSA error types.
#[derive(Debug, Clone, PartialEq)]
pub enum VsaError {
    /// Configuration file not found.
    ConfigNotFound(String),
    /// Invalid configuration.
    InvalidConfig(String),
    /// YAML parsing error (its message).
    YamlError(String),
    /// JSON error (its message).
    JsonError(String),
    /// IO error (its message).
    IoError(String),
    /// Pattern matching error (its message).
    PatternError(String),
    /// Validation error.
    ValidationError(String),
    /// Invalid file structure.
    InvalidStructure { path: String, reason: String },
    /// Duplicate integration event.
    DuplicateIntegrationEvent { event: String, contexts: Vec<String> },
    /// Missing required file.
    MissingFile(String),
    /// Invalid pattern.
    InvalidPattern { pattern: String, file: String },
    /// Framework integration error.
    FrameworkError(String),
    /// Template error.
    TemplateError(String),
    /// Context not found.
    ContextNotFound(String),
    /// Feature not found.
    FeatureNotFound { context: String, feature: String },
    /// Invalid operation name.
    InvalidOperationName(String),
    /// Unsupported language.
    UnsupportedLanguage(String),
}

} // verus!
