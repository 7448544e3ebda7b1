//! The arguments of the commands that write references to symbols.

use vstd::prelude::*;

verus! {

/// The arguments of the command that asks a language server for a symbol.
pub struct CopyMarkdownArgs {
    /// The directory of the workspace.
    pub root: String,
    /// The file, by itself or below the workspace.
    pub file: String,
    /// The line, counted from 1.
    pub line: u32,
    /// The column, counted from 1.
    pub character: u32,
    /// The language server; by the extension of the file where none is given.
    pub server_path: Option<String>,
    /// Whether the reference leads to GitHub.
    pub github: bool,
    /// The git remote.
    pub remote: String,
    /// How long to wait after opening the document, in milliseconds.
    pub lsp_init_delay_ms: u64,
    /// How often to ask again where the answers are empty.
    pub lsp_max_retries: u32,
    /// How long to wait for an answer, in milliseconds.
    pub lsp_timeout_ms: u64,
}

/// The arguments of the command that formats a symbol from answers that are there already.
pub struct FormatSymbolArgs {
    /// The directory of the workspace.
    pub root: String,
    /// The file, by itself or below the workspace.
    pub file: String,
    /// The line, counted from 1.
    pub line: u32,
    /// The hover answer as JSON, or `@` and the path of a file that holds it.
    pub hover_json: Option<String>,
    /// The definition answer as JSON, or `@` and the path of a file that holds it.
    pub definition_json: Option<String>,
    /// A file that holds the hover answer.
    pub hover_file: Option<String>,
    /// A file that holds the definition answer.
    pub definition_file: Option<String>,
    /// Whether the reference leads to GitHub.
    pub github: bool,
    /// The git remote.
    pub remote: String,
}

} // verus!
