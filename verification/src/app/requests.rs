//! The inputs and outputs of the commands.

use vstd::prelude::*;
use vstd::std_specs::convert::FromSpec;

use crate::cli::{CopyMarkdownArgs, FormatSymbolArgs};
use crate::records::{JumpRequest, MaterializedPath, ProjectRoot};

verus! {

/// A request to show the symbol at a place.
pub struct HoverRequest {
    pub root: String,
    pub file: String,
    pub line: u32,
    pub character: u32,
    pub server_path: String,
}

/// A request to write a reference to the symbol at a place.
pub struct CopyMarkdownRequest {
    pub root: String,
    pub file: String,
    pub line: u32,
    pub character: u32,
    pub server_path: Option<String>,
    pub use_github_link: bool,
    pub remote: String,
    pub lsp_init_delay_ms: u64,
    pub lsp_max_retries: u32,
    pub lsp_timeout_ms: u64,
}

impl From<CopyMarkdownArgs> for CopyMarkdownRequest {
    fn from(args: CopyMarkdownArgs) -> (r: CopyMarkdownRequest) {
        CopyMarkdownRequest {
            root: args.root,
            file: args.file,
            line: args.line,
            character: args.character,
            server_path: args.server_path,
            use_github_link: args.github,
            remote: args.remote,
            lsp_init_delay_ms: args.lsp_init_delay_ms,
            lsp_max_retries: args.lsp_max_retries,
            lsp_timeout_ms: args.lsp_timeout_ms,
        }
    }
}

impl vstd::std_specs::convert::FromSpecImpl<CopyMarkdownArgs> for CopyMarkdownRequest {
    open spec fn obeys_from_spec() -> bool {
        true
    }

    open spec fn from_spec(args: CopyMarkdownArgs) -> CopyMarkdownRequest {
        CopyMarkdownRequest {
            root: args.root,
            file: args.file,
            line: args.line,
            character: args.character,
            server_path: args.server_path,
            use_github_link: args.github,
            remote: args.remote,
            lsp_init_delay_ms: args.lsp_init_delay_ms,
            lsp_max_retries: args.lsp_max_retries,
            lsp_timeout_ms: args.lsp_timeout_ms,
        }
    }
}

/// A reference to a symbol.
pub struct CopyMarkdownOutput {
    pub markdown: String,
}

/// A request to find the file that a link leads to.
pub struct ResolveLinkRequest {
    pub input: String,
    pub root: Option<String>,
    pub markers: Option<Vec<String>>,
}

/// The file that a link leads to, with its project.
pub struct ResolveLinkOutput {
    pub request: JumpRequest,
    pub materialized: MaterializedPath,
    pub root: ProjectRoot,
}

/// A request to open the file that a link leads to.
pub struct JumpInput {
    pub link: String,
    pub markers: Option<Vec<String>>,
}

/// What a jump has opened.
pub struct JumpOutcome {
    pub status: String,
    pub session: String,
    pub file: String,
    pub line: Option<u32>,
}

/// A request to write a reference to a symbol from answers that are there already.
pub struct FormatSymbolRequest {
    pub root: String,
    pub file: String,
    pub line: u32,
    pub hover_json: Option<String>,
    pub definition_json: Option<String>,
    pub hover_file: Option<String>,
    pub definition_file: Option<String>,
    pub use_github_link: bool,
    pub remote: String,
}

impl From<FormatSymbolArgs> for FormatSymbolRequest {
    fn from(args: FormatSymbolArgs) -> (r: FormatSymbolRequest) {
        FormatSymbolRequest {
            root: args.root,
            file: args.file,
            line: args.line,
            hover_json: args.hover_json,
            definition_json: args.definition_json,
            hover_file: args.hover_file,
            definition_file: args.definition_file,
            use_github_link: args.github,
            remote: args.remote,
        }
    }
}

impl vstd::std_specs::convert::FromSpecImpl<FormatSymbolArgs> for FormatSymbolRequest {
    open spec fn obeys_from_spec() -> bool {
        true
    }

    open spec fn from_spec(args: FormatSymbolArgs) -> FormatSymbolRequest {
        FormatSymbolRequest {
            root: args.root,
            file: args.file,
            line: args.line,
            hover_json: args.hover_json,
            definition_json: args.definition_json,
            hover_file: args.hover_file,
            definition_file: args.definition_file,
            use_github_link: args.github,
            remote: args.remote,
        }
    }
}

/// A request for a reference asks for what its arguments say.
pub proof fn lemma_reference_requests_say_what_their_arguments_say(args: CopyMarkdownArgs)
    ensures
        ({
            let request = <CopyMarkdownRequest as FromSpec<CopyMarkdownArgs>>::from_spec(args);
            &&& request.root == args.root
            &&& request.file == args.file
            &&& request.line == args.line
            &&& request.character == args.character
            &&& request.server_path == args.server_path
            &&& request.use_github_link == args.github
            &&& request.remote == args.remote
            &&& request.lsp_init_delay_ms == args.lsp_init_delay_ms
            &&& request.lsp_max_retries == args.lsp_max_retries
            &&& request.lsp_timeout_ms == args.lsp_timeout_ms
        }),
{
}

/// A request to format a symbol asks for what its arguments say.
pub proof fn lemma_format_requests_say_what_their_arguments_say(args: FormatSymbolArgs)
    ensures
        ({
            let request = <FormatSymbolRequest as FromSpec<FormatSymbolArgs>>::from_spec(args);
            &&& request.root == args.root
            &&& request.file == args.file
            &&& request.line == args.line
            &&& request.hover_json == args.hover_json
            &&& request.definition_json == args.definition_json
            &&& request.hover_file == args.hover_file
            &&& request.definition_file == args.definition_file
            &&& request.use_github_link == args.github
            &&& request.remote == args.remote
        }),
{
}

} // verus!
