//! Heuristic, multi-language source-code scanner.
//!
//! Given a file's content and extension, the library detects import
//! statements, extracts approximate function boundaries, finds TODO-style
//! annotations and strips comments; it also scores a directory's marker
//! files to guess the project's ecosystem, and maps relative import
//! specifiers to candidate files.  All functions are pure: reading files,
//! walking directories and checking that paths exist is left to the caller,
//! which hands the content (or existence facts) in as plain values.

pub mod code_analysis;
pub mod comments;
pub mod config;
pub mod file_ops;
pub mod patterns;
pub mod project_type;
pub mod resolve;
pub mod text;
pub mod token_counter;
