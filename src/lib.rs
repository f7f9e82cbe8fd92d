//! Diagnostic context extraction and rendering for TypeScript source
//! analysis: byte offsets to lines and columns, span extraction, the scope
//! around a diagnostic, scope-aware truncation of code excerpts, annotation
//! and highlighted-code rendering for terminals and HTML, and the reports
//! and selection rules of the command-line tool.

// Text foundations.
pub mod chars;
pub mod lines;
pub mod span;
pub mod text;

// Diagnostic context.
pub mod code_context;
pub mod diagnostics;
pub mod error;
pub mod laws;

// Rendering.
pub mod ansi;
pub mod colorize;
pub mod error_annotations;
pub mod highlighted;
pub mod html;
pub mod markdown;
pub mod options;
pub mod output;
pub mod themes;

// Reports and the command-line tool.
pub mod cli;
pub mod globs;
pub mod jsdoc;
pub mod models;
pub mod paths;
pub mod watcher;
