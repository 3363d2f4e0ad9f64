//! Formatting of code-completion candidates into a single editor command.
//!
//! Given the candidate list that a language analysis service returned for a
//! buffer position, the library normalizes each candidate into a three-part
//! display record, escapes and quotes every field, and assembles the one
//! command string that the editor's completion menu executes verbatim.

pub mod fields;
pub mod format;
pub mod pattern;
pub mod text;
pub mod types;

