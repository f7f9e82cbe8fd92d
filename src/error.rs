//! Errors of the highlighting and context-extraction layer.
use vstd::prelude::*;

use crate::chars::{decimal, push_decimal, push_str};

verus! {

/// `std::io::Error`, carried opaquely inside `HighlightError::ThemeLoadError`.
#[verifier::external_type_specification]
#[verifier::external_body]
pub struct ExIoError(std::io::Error);

/// Errors that can occur while extracting or highlighting code.
#[derive(Debug)]
pub enum HighlightError {
    /// The styling engine does not know the requested language.
    UnsupportedLanguage(String),
    /// The requested theme is not available.
    ThemeNotFound { name: String },
    /// A theme file could not be read or parsed.
    ThemeLoadError { source: std::io::Error },
    /// A span is inverted, out of bounds, or not on character boundaries.
    InvalidSpan { line: usize, column: usize },
    /// A code block has more lines than the highlighter accepts.
    CodeBlockTooLarge { size: usize, max: usize },
    /// The styling engine failed.
    SyntectError(String),
}

/// Result of a highlighting operation.
pub type Result<T> = core::result::Result<T, HighlightError>;

/// Relies on the `Display` impl of `std::io::Error` for the text of the
/// error; nothing is assumed about that text.
#[verifier::external_body]
pub(crate) fn io_error_text(e: &std::io::Error) -> String {
    format!("{}", e)
}

impl HighlightError {
    /// The human-readable message of the error.
    pub fn to_string(&self) -> (r: String)
        ensures
            match self {
                HighlightError::UnsupportedLanguage(l) => r@ == "Unsupported language: "@ + l@,
                HighlightError::ThemeNotFound { name } => r@ == "Theme '"@ + name@ + "' not found"@,
                HighlightError::ThemeLoadError { .. } => r@.len() >= "Failed to load theme from file: "@.len()
                    && r@.take("Failed to load theme from file: "@.len() as int)
                    == "Failed to load theme from file: "@,
                HighlightError::InvalidSpan { line, column } => r@ == "Invalid code span: line "@
                    + decimal(*line as nat) + ", column "@ + decimal(*column as nat),
                HighlightError::CodeBlockTooLarge { size, max } => r@
                    == "Code block exceeds maximum size ("@ + decimal(*size as nat) + " lines > "@
                    + decimal(*max as nat) + " lines)"@,
                HighlightError::SyntectError(m) => r@ == "Syntax highlighting failed: "@ + m@,
            },
    {
        let mut s = String::new();
        match self {
            HighlightError::UnsupportedLanguage(l) => {
                push_str(&mut s, "Unsupported language: ");
                push_str(&mut s, l.as_str());
            },
            HighlightError::ThemeNotFound { name } => {
                push_str(&mut s, "Theme '");
                push_str(&mut s, name.as_str());
                push_str(&mut s, "' not found");
            },
            HighlightError::ThemeLoadError { source } => {
                push_str(&mut s, "Failed to load theme from file: ");
                let ghost prefix = s@;
                let detail = io_error_text(source);
                push_str(&mut s, detail.as_str());
                assert(s@.take(prefix.len() as int) =~= prefix);
            },
            HighlightError::InvalidSpan { line, column } => {
                push_str(&mut s, "Invalid code span: line ");
                push_decimal(&mut s, *line);
                push_str(&mut s, ", column ");
                push_decimal(&mut s, *column);
            },
            HighlightError::CodeBlockTooLarge { size, max } => {
                push_str(&mut s, "Code block exceeds maximum size (");
                push_decimal(&mut s, *size);
                push_str(&mut s, " lines > ");
                push_decimal(&mut s, *max);
                push_str(&mut s, " lines)");
            },
            HighlightError::SyntectError(m) => {
                push_str(&mut s, "Syntax highlighting failed: ");
                push_str(&mut s, m.as_str());
            },
        }
        s
    }
}

/// Errors of the analyses.
#[derive(Debug)]
pub enum Error {
    ParseError { file: String, message: String },
    SemanticError(String),
    IoError(std::io::Error),
    InvalidSourceType(String),
    AnalysisError(String),
}

impl Error {
    /// The human-readable message of the error.
    pub fn to_string(&self) -> (r: String)
        ensures
            match self {
                Error::ParseError { file, message } => r@ == "Parse error in "@ + file@ + ": "@
                    + message@,
                Error::SemanticError(m) => r@ == "Semantic analysis failed: "@ + m@,
                Error::IoError(_) => r@.len() >= "I/O error: "@.len() && r@.take(
                    "I/O error: "@.len() as int,
                ) == "I/O error: "@,
                Error::InvalidSourceType(f) => r@ == "Invalid source type for "@ + f@,
                Error::AnalysisError(m) => r@ == "Analysis error: "@ + m@,
            },
    {
        let mut s = String::new();
        match self {
            Error::ParseError { file, message } => {
                push_str(&mut s, "Parse error in ");
                push_str(&mut s, file.as_str());
                push_str(&mut s, ": ");
                push_str(&mut s, message.as_str());
            },
            Error::SemanticError(m) => {
                push_str(&mut s, "Semantic analysis failed: ");
                push_str(&mut s, m.as_str());
            },
            Error::IoError(e) => {
                push_str(&mut s, "I/O error: ");
                let ghost prefix = s@;
                let detail = io_error_text(e);
                push_str(&mut s, detail.as_str());
                assert(s@.take(prefix.len() as int) =~= prefix);
            },
            Error::InvalidSourceType(f) => {
                push_str(&mut s, "Invalid source type for ");
                push_str(&mut s, f.as_str());
            },
            Error::AnalysisError(m) => {
                push_str(&mut s, "Analysis error: ");
                push_str(&mut s, m.as_str());
            },
        }
        s
    }
}

} // verus!
