//! References to symbols: from the answers of a language server to Markdown.

use vstd::arithmetic::power2::{lemma2_to64, pow2};
use vstd::prelude::*;
use vstd::string::*;

use crate::app::neovim::{neovim_answer, parse_neovim_lsp_response};
use crate::app::requests::{CopyMarkdownOutput, FormatSymbolRequest};
use crate::git::GitHubLink;
use crate::json::{parsed_text, Json, JsonTree};
use crate::paths::{
    extension, extension_of, file_name, file_name_of, is_absolute_path, join_path, joined_path,
    lemma_base_does_not_matter,
};
use crate::symbol::extractor::{
    create_extractor, detect_language, language_of, language_of_extension, lemma_spelling_of_four,
    lemma_spelling_of_three, lemma_spelling_of_two, symbol_for, text_for, Extractor,
    SymbolExtractor,
};
use crate::symbol::formatter::{markdown_reference, MarkdownFormatter};
use crate::symbol::types::{HoverOutput, SymbolInfo, SymbolView};
use crate::text::{
    has_prefix, lemma_texts_stand_in_others, opt_view, past_prefix, same_text, skip_prefix,
    strip_prefix, without_prefix,
};

verus! {

/// The language server for the files with an extension.
pub open spec fn server_of_extension(ext: Seq<char>) -> Seq<char> {
    if ext == "ts"@ || ext == "tsx"@ || ext == "js"@ || ext == "jsx"@ || ext == "mjs"@ || ext
        == "cjs"@ {
        "typescript-language-server"@
    } else if ext == "py"@ || ext == "pyw"@ || ext == "pyi"@ {
        "pyright-langserver"@
    } else if ext == "go"@ {
        "gopls"@
    } else if ext == "lua"@ {
        "lua-language-server"@
    } else if ext == "c"@ || ext == "cpp"@ || ext == "cc"@ || ext == "cxx"@ || ext == "h"@ || ext
        == "hpp"@ {
        "clangd"@
    } else if ext == "java"@ {
        "jdtls"@
    } else if ext == "zig"@ {
        "zls"@
    } else if ext == "nix"@ {
        "nil"@
    } else {
        "rust-analyzer"@
    }
}

/// The language server for the file at `path`.
pub open spec fn server_of(path: Seq<char>) -> Seq<char> {
    match extension_of(path) {
        Some(ext) => server_of_extension(ext),
        None => "rust-analyzer"@,
    }
}

/// The language server for the file at `path`, by its extension.
pub fn detect_lsp_server(path: &str) -> (r: &'static str)
    ensures
        r@ == server_of(path@),
{
    let ext: &str = match extension(path) {
        Some(ext) => ext,
        None => {
            return "rust-analyzer";
        },
    };
    if same_text(ext, "ts") || same_text(ext, "tsx") || same_text(ext, "js") || same_text(
        ext,
        "jsx",
    ) || same_text(ext, "mjs") || same_text(ext, "cjs") {
        "typescript-language-server"
    } else if same_text(ext, "py") || same_text(ext, "pyw") || same_text(ext, "pyi") {
        "pyright-langserver"
    } else if same_text(ext, "go") {
        "gopls"
    } else if same_text(ext, "lua") {
        "lua-language-server"
    } else if same_text(ext, "c") || same_text(ext, "cpp") || same_text(ext, "cc") || same_text(
        ext,
        "cxx",
    ) || same_text(ext, "h") || same_text(ext, "hpp") {
        "clangd"
    } else if same_text(ext, "java") {
        "jdtls"
    } else if same_text(ext, "zig") {
        "zls"
    } else if same_text(ext, "nix") {
        "nil"
    } else {
        "rust-analyzer"
    }
}

/// The language server that was asked for, or the one for the file.
pub fn choose_server(server_path: Option<&str>, file_path: &str) -> (r: String)
    ensures
        r@ == (match server_path {
            Some(server) => server@,
            None => server_of(file_path@),
        }),
{
    match server_path {
        Some(server) => server.to_string(),
        None => detect_lsp_server(file_path).to_string(),
    }
}

/// The path of the file that a request names, which may stand below the root of the workspace.
pub fn requested_file(root: &str, file: &str) -> (r: String)
    ensures
        r@ == joined_path(root@, file@),
{
    join_path(root, file)
}

/// What a language server is told of a document and its workspace.
pub struct DocumentPlan {
    pub language_id: String,
    pub root_uri: String,
    pub file_uri: String,
    pub workspace_name: String,
}

/// The URI of a local path.
pub open spec fn file_uri_of(path: Seq<char>) -> Seq<char> {
    "file://"@ + path
}

fn file_uri(path: &str) -> (r: String)
    ensures
        r@ == file_uri_of(path@),
{
    let mut out: String = "file://".to_string();
    out.append(path);
    out
}

/// What a language server is told of the document at `file_path` in the workspace at `root`.
pub fn plan_document(root: &str, file_path: &str) -> (r: DocumentPlan)
    ensures
        r.language_id@ == language_of(file_path@),
        r.root_uri@ == file_uri_of(root@),
        r.file_uri@ == file_uri_of(file_path@),
        r.workspace_name@ == (match file_name_of(root@) {
            Some(name) => name,
            None => "workspace"@,
        }),
{
    let workspace_name: String = match file_name(root) {
        Some(name) => name.to_string(),
        None => "workspace".to_string(),
    };
    DocumentPlan {
        language_id: detect_language(file_path).to_string(),
        root_uri: file_uri(root),
        file_uri: file_uri(file_path),
        workspace_name,
    }
}

/// How long to wait before asking again, after `attempt` earlier repetitions: 200 ms, and twice as
/// long each time up to 3200 ms.
pub open spec fn retry_delay(attempt: u32) -> nat {
    200 * pow2(
        if attempt < 4 {
            attempt as nat
        } else {
            4
        },
    )
}

/// What follows a pair of answers.
pub enum FetchStep {
    /// The answers say something.
    Accept,
    /// Both are empty: wait so many milliseconds and ask again.
    Retry(u64),
    /// Both are empty, and it was the last attempt.
    GiveUp,
}

/// The attempts to get answers from a language server that may still be at work.
pub struct Fetch {
    attempt: u32,
    max_retries: u32,
}

impl Fetch {
    #[verifier::type_invariant]
    spec fn valid(self) -> bool {
        self.attempt <= self.max_retries
    }

    /// How many attempts have failed.
    pub closed spec fn failed(self) -> u32 {
        self.attempt
    }

    /// How often it may be tried again in all.
    pub closed spec fn limit(self) -> u32 {
        self.max_retries
    }

    /// No attempt has been made.
    pub fn new(max_retries: u32) -> (r: Fetch)
        ensures
            r.failed() == 0,
            r.limit() == max_retries,
    {
        Fetch { attempt: 0, max_retries }
    }

    /// What follows the answers of an attempt.
    pub fn after(&mut self, hover: &Json, definition: &Json) -> (r: FetchStep)
        ensures
            final(self).limit() == old(self).limit(),
            old(self).failed() <= old(self).limit(),
            !(hover@ is Null && definition@ is Null) ==> {
                &&& r == FetchStep::Accept
                &&& final(self).failed() == old(self).failed()
            },
            hover@ is Null && definition@ is Null && old(self).failed() < old(self).limit() ==> {
                &&& r matches FetchStep::Retry(delay) && delay == retry_delay(old(self).failed())
                &&& final(self).failed() == old(self).failed() + 1
            },
            hover@ is Null && definition@ is Null && old(self).failed() == old(self).limit() ==> {
                &&& r == FetchStep::GiveUp
                &&& final(self).failed() == old(self).failed()
            },
    {
        proof {
            use_type_invariant(&*self);
            lemma2_to64();
        }
        if !hover.is_null() || !definition.is_null() {
            return FetchStep::Accept;
        }
        if self.attempt < self.max_retries {
            let delay: u64 = match self.attempt {
                0 => 200,
                1 => 400,
                2 => 800,
                3 => 1600,
                _ => 3200,
            };
            self.attempt = self.attempt + 1;
            FetchStep::Retry(delay)
        } else {
            FetchStep::GiveUp
        }
    }
}

/// The waiting times grow up to a bound.
pub proof fn lemma_retry_delays(earlier: u32, later: u32)
    requires
        earlier <= later,
    ensures
        200 <= retry_delay(earlier) <= retry_delay(later) <= 3200,
{
    lemma2_to64();
}

/// The symbol and the text that the answers of a language server show.
pub fn hover_output(language_id: &str, hover: &Json, definition: &Json) -> (r: HoverOutput)
    ensures
        r.symbol_info@ == symbol_for(language_id@, hover@, definition@),
        opt_view(r.hover_text) == text_for(language_id@, hover@),
{
    let extractor: Extractor = create_extractor(language_id);
    HoverOutput {
        symbol_info: extractor.extract_symbol_info(hover, definition),
        hover_text: extractor.extract_hover_text(hover),
    }
}

/// A permanent link that a reference waits for.
pub struct PermalinkRequest {
    /// The file that the link leads to.
    pub path: String,
    /// The line that the link leads to.
    pub line: u32,
    /// The git remote that the link goes by.
    pub remote: String,
    /// The symbol that the reference is for.
    pub symbol: SymbolInfo,
}

/// What a [`PermalinkRequest`] says.
pub struct PermalinkView {
    pub path: Seq<char>,
    pub line: u32,
    pub remote: Seq<char>,
    pub symbol: SymbolView,
}

impl PermalinkRequest {
    /// What the request says.
    pub open spec fn view(self) -> PermalinkView {
        PermalinkView {
            path: self.path@,
            line: self.line,
            remote: self.remote@,
            symbol: self.symbol@,
        }
    }
}

/// A reference, or what is missing to write it.
pub enum Reference {
    Ready(CopyMarkdownOutput),
    NeedsPermalink(PermalinkRequest),
}

/// What a [`Reference`] says.
pub enum ReferenceView {
    Ready(Seq<char>),
    NeedsPermalink(PermalinkView),
}

impl Reference {
    /// What the reference says.
    pub open spec fn view(self) -> ReferenceView {
        match self {
            Reference::Ready(output) => ReferenceView::Ready(output.markdown@),
            Reference::NeedsPermalink(request) => ReferenceView::NeedsPermalink(request@),
        }
    }
}

/// There is something to refer to: a name or the place of the definition.
pub open spec fn is_found(symbol: SymbolView) -> bool {
    symbol.qualified_name is Some || symbol.definition_uri is Some
}

/// The reference to a symbol. A link to GitHub goes by a git remote and needs the file of the
/// definition; a symbol without one is written as it would be without such a link.
pub open spec fn reference_to(
    symbol: SymbolView,
    use_github_link: bool,
    remote: Seq<char>,
) -> ReferenceView {
    match symbol.definition_uri {
        Some(uri) => if use_github_link {
            ReferenceView::NeedsPermalink(
                PermalinkView {
                    path: past_prefix(uri, "file://"@),
                    line: match symbol.definition_line {
                        Some(line) => line,
                        None => 1,
                    },
                    remote,
                    symbol,
                },
            )
        } else {
            ReferenceView::Ready(markdown_reference(symbol, None))
        },
        None => ReferenceView::Ready(markdown_reference(symbol, None)),
    }
}

/// The reference to a symbol, where there is something to refer to. `remote` is the git remote that
/// a link to GitHub goes by.
pub fn begin_reference(symbol: SymbolInfo, use_github_link: bool, remote: &str) -> (r: Option<
    Reference,
>)
    ensures
        match r {
            Some(reference) => is_found(symbol@) && reference@ == reference_to(
                symbol@,
                use_github_link,
                remote@,
            ),
            None => !is_found(symbol@),
        },
{
    if symbol.qualified_name.is_none() && symbol.definition_uri.is_none() {
        return None;
    }
    if use_github_link {
        if let Some(uri) = &symbol.definition_uri {
            let path: String = skip_prefix(uri.as_str(), "file://").to_string();
            let line: u32 = match symbol.definition_line {
                Some(line) => line,
                None => 1,
            };
            let remote: String = remote.to_string();
            return Some(
                Reference::NeedsPermalink(PermalinkRequest { path, line, remote, symbol }),
            );
        }
    }
    let markdown: String = MarkdownFormatter::write_reference(&symbol, None);
    Some(Reference::Ready(CopyMarkdownOutput { markdown }))
}

/// The reference that has waited for a permanent link.
pub fn finish_reference(request: &PermalinkRequest, link: &GitHubLink) -> (r: CopyMarkdownOutput)
    ensures
        r.markdown@ == markdown_reference(request.symbol@, Some(link.url@)),
{
    CopyMarkdownOutput {
        markdown: MarkdownFormatter::write_reference(&request.symbol, Some(link)),
    }
}

/// Why there is no reference.
pub enum SymbolError {
    /// The answers are no JSON.
    InvalidJson(serde_json::Error),
    /// There is no symbol in the answers that were given.
    NothingInResults,
}

impl SymbolError {
    /// What to tell the user.
    pub open spec fn text(self) -> Seq<char> {
        match self {
            SymbolError::InvalidJson(_) => "Failed to parse LSP JSON"@,
            SymbolError::NothingInResults => "No symbol found in provided LSP results"@,
        }
    }

    /// What to tell the user.
    pub fn message(&self) -> (r: &'static str)
        ensures
            r@ == self.text(),
    {
        match self {
            SymbolError::InvalidJson(_) => "Failed to parse LSP JSON",
            SymbolError::NothingInResults => "No symbol found in provided LSP results",
        }
    }
}

/// Where the JSON of an answer is.
pub enum JsonSource {
    /// In a file.
    File(String),
    /// Here.
    Text(String),
}

/// What a [`JsonSource`] says.
pub enum SourceView {
    File(Seq<char>),
    Text(Seq<char>),
}

impl JsonSource {
    /// What the source says.
    pub open spec fn view(self) -> SourceView {
        match self {
            JsonSource::File(path) => SourceView::File(path@),
            JsonSource::Text(json) => SourceView::Text(json@),
        }
    }
}

/// Where the JSON of an answer is: in the file that is named for it, else in the argument, where
/// `@` precedes the path of a file. Without either it is an empty object.
pub open spec fn json_source(json_arg: Option<Seq<char>>, file_arg: Option<Seq<char>>) -> SourceView {
    match (file_arg, json_arg) {
        (Some(path), _) => SourceView::File(path),
        (None, Some(json)) => match without_prefix(json, "@"@) {
            Some(path) => SourceView::File(path),
            None => SourceView::Text(json),
        },
        (None, None) => SourceView::Text("{}"@),
    }
}

/// Where the JSON of an answer is.
pub fn read_json_input(json_arg: Option<&str>, file_arg: Option<&str>) -> (r: JsonSource)
    ensures
        r@ == json_source(
            match json_arg {
                Some(json) => Some(json@),
                None => None,
            },
            match file_arg {
                Some(path) => Some(path@),
                None => None,
            },
        ),
{
    if let Some(path) = file_arg {
        return JsonSource::File(path.to_string());
    }
    match json_arg {
        Some(json) => match strip_prefix(json, "@") {
            Some(path) => JsonSource::File(path.to_string()),
            None => JsonSource::Text(json.to_string()),
        },
        None => JsonSource::Text("{}".to_string()),
    }
}

/// The symbol that a request is about, given the answers of a language server.
pub open spec fn requested_symbol(
    request: FormatSymbolRequest,
    hover: JsonTree,
    definition: JsonTree,
) -> SymbolView {
    symbol_for(language_of(joined_path(request.root@, request.file@)), hover, definition)
}

/// The outcome of writing a reference to `symbol`.
pub open spec fn format_outcome(
    r: Result<Reference, SymbolError>,
    symbol: SymbolView,
    use_github_link: bool,
    remote: Seq<char>,
) -> bool {
    match r {
        Ok(reference) => is_found(symbol) && reference@ == reference_to(
            symbol,
            use_github_link,
            remote,
        ),
        Err(error) => !is_found(symbol) && error == SymbolError::NothingInResults,
    }
}

/// The reference to the symbol that the answers of a language server show.
pub fn format_answers(request: &FormatSymbolRequest, hover: &Json, definition: &Json) -> (r: Result<
    Reference,
    SymbolError,
>)
    ensures
        format_outcome(
            r,
            requested_symbol(*request, hover@, definition@),
            request.use_github_link,
            request.remote@,
        ),
{
    let file_path: String = requested_file(request.root.as_str(), request.file.as_str());
    let extractor: Extractor = create_extractor(detect_language(file_path.as_str()));
    let symbol: SymbolInfo = extractor.extract_symbol_info(hover, definition);
    match begin_reference(symbol, request.use_github_link, request.remote.as_str()) {
        Some(reference) => Ok(reference),
        None => Err(SymbolError::NothingInResults),
    }
}

/// The reference to the symbol in the texts that Neovim hands on.
pub fn format_symbol(
    request: &FormatSymbolRequest,
    hover_json: &str,
    definition_json: &str,
) -> (r: Result<Reference, SymbolError>)
    ensures
        match (parsed_text(hover_json@), parsed_text(definition_json@)) {
            (Some(hover), Some(definition)) => format_outcome(
                r,
                requested_symbol(*request, neovim_answer(hover), neovim_answer(definition)),
                request.use_github_link,
                request.remote@,
            ),
            _ => r matches Err(error) && error is InvalidJson,
        },
{
    let hover: Json = match parse_neovim_lsp_response(hover_json) {
        Ok(hover) => hover,
        Err(error) => {
            return Err(SymbolError::InvalidJson(error));
        },
    };
    let definition: Json = match parse_neovim_lsp_response(definition_json) {
        Ok(definition) => definition,
        Err(error) => {
            return Err(SymbolError::InvalidJson(error));
        },
    };
    format_answers(request, &hover, &definition)
}

/// A link to GitHub is asked for where a reference shall have one and the file of the definition is
/// known: for that file, at the line of the definition or the first one, and by the remote that was
/// named.
pub proof fn lemma_permalinks_go_by_the_remote(
    symbol: SymbolView,
    use_github_link: bool,
    remote: Seq<char>,
)
    ensures
        match reference_to(symbol, use_github_link, remote) {
            ReferenceView::NeedsPermalink(request) => {
                &&& use_github_link
                &&& symbol.definition_uri matches Some(uri) && request.path == past_prefix(
                    uri,
                    "file://"@,
                )
                &&& request.line == match symbol.definition_line {
                    Some(line) => line,
                    None => 1,
                }
                &&& request.remote == remote
                &&& request.symbol == symbol
            },
            ReferenceView::Ready(_) => !use_github_link || symbol.definition_uri is None,
        },
{
}

/// The language and the language server of a file do not depend on the root of the workspace.
pub proof fn lemma_root_does_not_matter(root: Seq<char>, file: Seq<char>)
    requires
        file_name_of(file) is Some,
    ensures
        language_of(joined_path(root, file)) == language_of(file),
        server_of(joined_path(root, file)) == server_of(file),
{
    lemma_base_does_not_matter(root, file);
}

/// Files of Rust go to its language server.
proof fn lemma_rust_has_its_server()
    ensures
        language_of_extension("rs"@) == "rust"@,
        server_of_extension("rs"@) == "rust-analyzer"@,
{
    reveal_strlit("rs");
    reveal_strlit("ts");
    reveal_strlit("js");
    reveal_strlit("py");
    reveal_strlit("go");
    reveal_strlit("cc");
    lemma_longer_extensions();
    assert("rs"@[0] == 'r');
    assert("ts"@[0] == 't' && "js"@[0] == 'j' && "py"@[0] == 'p');
    assert("go"@[0] == 'g' && "cc"@[0] == 'c');
}

/// The extensions of the language servers that do not have two letters.
proof fn lemma_longer_extensions()
    ensures
        "tsx"@.len() == 3,
        "jsx"@.len() == 3,
        "mjs"@.len() == 3,
        "cjs"@.len() == 3,
        "pyw"@.len() == 3,
        "pyi"@.len() == 3,
        "lua"@.len() == 3,
        "c"@.len() == 1,
        "cpp"@.len() == 3,
        "cxx"@.len() == 3,
        "h"@.len() == 1,
        "hpp"@.len() == 3,
        "java"@.len() == 4,
        "zig"@.len() == 3,
        "nix"@.len() == 3,
{
    reveal_strlit("tsx");
    reveal_strlit("jsx");
    reveal_strlit("mjs");
    reveal_strlit("cjs");
    reveal_strlit("pyw");
    reveal_strlit("pyi");
    reveal_strlit("lua");
    reveal_strlit("c");
    reveal_strlit("cpp");
    reveal_strlit("cxx");
    reveal_strlit("h");
    reveal_strlit("hpp");
    reveal_strlit("java");
    reveal_strlit("zig");
    reveal_strlit("nix");
}

/// Files of TypeScript and JavaScript go to one language server.
proof fn lemma_scripts_have_their_server(ext: Seq<char>)
    ensures
        ext == "ts"@ || ext == "tsx"@ ==> language_of_extension(ext) == "typescript"@,
        ext == "js"@ || ext == "jsx"@ || ext == "mjs"@ || ext == "cjs"@ ==> language_of_extension(
            ext,
        ) == "javascript"@,
        ext == "ts"@ || ext == "tsx"@ || ext == "js"@ || ext == "jsx"@ || ext == "mjs"@ || ext
            == "cjs"@ ==> server_of_extension(ext) == "typescript-language-server"@,
{
    reveal_strlit("rs");
    reveal_strlit("ts");
    reveal_strlit("tsx");
    reveal_strlit("js");
    reveal_strlit("jsx");
    reveal_strlit("mjs");
    reveal_strlit("cjs");
    assert("rs"@[0] == 'r' && "ts"@[0] == 't' && "js"@[0] == 'j');
    assert("tsx"@[0] == 't' && "jsx"@[0] == 'j' && "mjs"@[0] == 'm' && "cjs"@[0] == 'c');
}

/// Files of Python and of Go go to their language servers.
proof fn lemma_python_and_go_have_their_servers(ext: Seq<char>)
    ensures
        ext == "py"@ || ext == "pyw"@ || ext == "pyi"@ ==> {
            &&& language_of_extension(ext) == "python"@
            &&& server_of_extension(ext) == "pyright-langserver"@
        },
        ext == "go"@ ==> {
            &&& language_of_extension(ext) == "go"@
            &&& server_of_extension(ext) == "gopls"@
        },
{
    reveal_strlit("rs");
    reveal_strlit("ts");
    reveal_strlit("tsx");
    reveal_strlit("js");
    reveal_strlit("jsx");
    reveal_strlit("mjs");
    reveal_strlit("cjs");
    reveal_strlit("py");
    reveal_strlit("pyw");
    reveal_strlit("pyi");
    reveal_strlit("go");
    assert("rs"@[0] == 'r' && "ts"@[0] == 't' && "js"@[0] == 'j' && "go"@[0] == 'g');
    assert("tsx"@[0] == 't' && "jsx"@[0] == 'j' && "mjs"@[0] == 'm' && "cjs"@[0] == 'c');
    assert("py"@[0] == 'p' && "pyw"@[0] == 'p' && "pyi"@[0] == 'p');
}

/// The languages whose symbols are read in a way of their own have language servers of their own:
/// the extension of a file leads to both.
pub proof fn lemma_languages_have_their_servers(path: Seq<char>)
    requires
        extension_of(path) is Some,
    ensures
        ({
            let ext = extension_of(path)->0;
            &&& ext == "rs"@ ==> language_of(path) == "rust"@ && server_of(path)
                == "rust-analyzer"@
            &&& ext == "ts"@ || ext == "tsx"@ ==> language_of(path) == "typescript"@ && server_of(
                path,
            ) == "typescript-language-server"@
            &&& ext == "js"@ || ext == "jsx"@ || ext == "mjs"@ || ext == "cjs"@ ==> language_of(
                path,
            ) == "javascript"@ && server_of(path) == "typescript-language-server"@
            &&& ext == "py"@ || ext == "pyw"@ || ext == "pyi"@ ==> language_of(path) == "python"@
                && server_of(path) == "pyright-langserver"@
            &&& ext == "go"@ ==> language_of(path) == "go"@ && server_of(path) == "gopls"@
        }),
{
    let ext = extension_of(path)->0;
    lemma_rust_has_its_server();
    lemma_scripts_have_their_server(ext);
    lemma_python_and_go_have_their_servers(ext);
}

/// The language server of a file goes by its extension; a file with another extension, or without
/// one, has that of Rust.
pub proof fn lemma_extensions_have_their_servers(path: Seq<char>)
    ensures
        extension_of(path) is None ==> server_of(path) == "rust-analyzer"@,
        extension_of(path) matches Some(ext) ==> {
            let scripts = ext == "ts"@ || ext == "tsx"@ || ext == "js"@ || ext == "jsx"@ || ext
                == "mjs"@ || ext == "cjs"@;
            let python = ext == "py"@ || ext == "pyw"@ || ext == "pyi"@;
            let c = ext == "c"@ || ext == "cpp"@ || ext == "cc"@ || ext == "cxx"@ || ext == "h"@
                || ext == "hpp"@;
            &&& scripts ==> server_of(path) == "typescript-language-server"@
            &&& python ==> server_of(path) == "pyright-langserver"@
            &&& ext == "go"@ ==> server_of(path) == "gopls"@
            &&& ext == "lua"@ ==> server_of(path) == "lua-language-server"@
            &&& c ==> server_of(path) == "clangd"@
            &&& ext == "java"@ ==> server_of(path) == "jdtls"@
            &&& ext == "zig"@ ==> server_of(path) == "zls"@
            &&& ext == "nix"@ ==> server_of(path) == "nil"@
            &&& !scripts && !python && !c && ext != "go"@ && ext != "lua"@ && ext != "java"@ && ext
                != "zig"@ && ext != "nix"@ ==> server_of(path) == "rust-analyzer"@
        },
{
    lemma_spelling_of_two();
    lemma_spelling_of_three();
    lemma_spelling_of_four();
}

/// The waiting time doubles from one repetition to the next, from 200 milliseconds on, and from the
/// fifth on it stays as it is.
pub proof fn lemma_retry_delays_double(attempt: u32)
    ensures
        retry_delay(0) == 200,
        attempt < 4 ==> retry_delay((attempt + 1) as u32) == 2 * retry_delay(attempt),
        attempt >= 4 ==> retry_delay(attempt) == 3200,
{
    lemma2_to64();
}

/// Where an answer is: a file that is named for it goes before the argument; of the argument, `@`
/// and a path name a file, and anything else is the answer. Without either there is an empty object.
pub proof fn lemma_answers_are_where_they_are_named(
    json: Option<Seq<char>>,
    path: Seq<char>,
    text: Seq<char>,
)
    ensures
        json_source(json, Some(path)) == SourceView::File(path),
        json_source(Some("@"@ + path), None) == SourceView::File(path),
        text.len() == 0 || text[0] != '@' ==> json_source(Some(text), None) == SourceView::Text(
            text,
        ),
        json_source(None, None) == SourceView::Text("{}"@),
{
    reveal_strlit("@");
    assert("@"@ =~= seq!['@']);
    lemma_texts_stand_in_others(Seq::empty(), "@"@, path);
    if has_prefix(text, "@"@) {
        assert(text.subrange(0, 1)[0] == text[0]);
    }
}

/// The symbol that a request is about is read in the way of the language of its file, which may be
/// named by itself or below the root.
pub proof fn lemma_requested_symbols_are_of_their_files(
    request: FormatSymbolRequest,
    hover: JsonTree,
    definition: JsonTree,
)
    ensures
        is_absolute_path(request.file@) ==> requested_symbol(request, hover, definition)
            == symbol_for(language_of(request.file@), hover, definition),
        file_name_of(request.file@) is Some ==> requested_symbol(request, hover, definition)
            == symbol_for(language_of(request.file@), hover, definition),
{
    if file_name_of(request.file@) is Some {
        lemma_root_does_not_matter(request.root@, request.file@);
    }
}

/// There is something to refer to where the symbol has a name or a place, and nothing else counts.
pub proof fn lemma_symbols_are_found_by_name_or_place(symbol: SymbolView, other: SymbolView)
    requires
        symbol.qualified_name is Some == other.qualified_name is Some,
        symbol.definition_uri is Some == other.definition_uri is Some,
    ensures
        is_found(symbol) == is_found(other),
        symbol.qualified_name is Some ==> is_found(symbol),
        symbol.definition_uri is Some ==> is_found(symbol),
        symbol.qualified_name is None && symbol.definition_uri is None ==> !is_found(symbol),
{
}

/// A reference without a permanent link leads to the definition, and is the label alone where that
/// is not known; with a permanent link it leads there.
pub proof fn lemma_references_lead_where_they_should(
    symbol: SymbolView,
    use_github_link: bool,
    remote: Seq<char>,
)
    ensures
        !use_github_link ==> reference_to(symbol, use_github_link, remote) == ReferenceView::Ready(
            markdown_reference(symbol, None),
        ),
        symbol.definition_uri is None ==> reference_to(symbol, use_github_link, remote)
            == ReferenceView::Ready(markdown_reference(symbol, None)),
        use_github_link && symbol.definition_uri is Some ==> reference_to(
            symbol,
            use_github_link,
            remote,
        ) is NeedsPermalink,
{
}

/// A symbol is formatted just where it has a name or a place, and then by the reference to it; the
/// request to make a link carries what the link is for.
pub proof fn lemma_found_symbols_are_formatted(
    r: Result<Reference, SymbolError>,
    symbol: SymbolView,
    use_github_link: bool,
    remote: Seq<char>,
)
    requires
        format_outcome(r, symbol, use_github_link, remote),
    ensures
        r is Ok <==> symbol.qualified_name is Some || symbol.definition_uri is Some,
        r matches Err(error) ==> error is NothingInResults,
        r matches Ok(Reference::Ready(output)) ==> output.markdown@ == markdown_reference(
            symbol,
            None,
        ) && !(use_github_link && symbol.definition_uri is Some),
        r matches Ok(Reference::NeedsPermalink(request)) ==> {
            &&& use_github_link
            &&& symbol.definition_uri matches Some(uri) && request.path@ == past_prefix(
                uri,
                "file://"@,
            )
            &&& request.line == match symbol.definition_line {
                Some(line) => line,
                None => 1,
            }
            &&& request.remote@ == remote
            &&& request.symbol@ == symbol
        },
{
}

/// What to tell the user where there is no reference.
pub proof fn lemma_missing_references_are_explained(error: SymbolError)
    ensures
        error is InvalidJson ==> error.text() == "Failed to parse LSP JSON"@,
        error is NothingInResults ==> error.text() == "No symbol found in provided LSP results"@,
{
}

/// A file is named to a server by its path behind `file://`, and the path is found again in the
/// name.
pub proof fn lemma_files_are_named_by_their_paths(path: Seq<char>)
    ensures
        file_uri_of(path) == "file://"@ + path,
        past_prefix(file_uri_of(path), "file://"@) == path,
{
    lemma_texts_stand_in_others(Seq::empty(), "file://"@, path);
}

} // verus!
