//! Symbols under the cursor: what a language server tells of them, and how they are written down.

pub mod extractor;
pub mod markdown;
pub mod types;
pub mod rust;
pub mod generic;
pub mod formatter;
