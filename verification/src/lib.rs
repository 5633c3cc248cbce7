//! Parsing and validation engine for line-oriented post files: each file is a
//! block of `key: value` header lines, a blank separator line, and a free-form
//! body. The parser builds a structured document, the validator checks a
//! required-key policy against it, and the remaining modules derive filenames
//! and render HTML around an externally rendered body.

pub mod error;
pub mod file;
pub mod filename;
pub mod header;
pub mod ident;
pub mod paths;
pub mod render;
pub mod strutil;
pub mod template;
