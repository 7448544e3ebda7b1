//! The parameters of the requests to a language server, as `lsp_types` writes them.

use vstd::prelude::*;
use vstd::string::*;
use vstd::utf8::*;

use crate::json::{field_of, json_of, json_tree, lemma_lookup_at, Json, JsonTree};

verus! {

/// A place in a document, both numbers counted from 0.
pub struct Position {
    pub line: u32,
    pub character: u32,
}

/// What `lsp_types::Uri` has against a text: `None` where `Uri::from_str` gives a URI, which keeps
/// the text, and what its error shows where it does not.
pub uninterp spec fn uri_fault(text: Seq<char>) -> Option<Seq<char>>;

/// The longest text, in bytes, that `Uri::from_str` takes.
pub const URI_LIMIT: usize = 0x7fff_ffff;

/// A text is short enough for `Uri::from_str`, which panics on a longer one.
pub open spec fn is_short(text: Seq<char>) -> bool {
    encode_utf8(text).len() <= URI_LIMIT
}

/// Why a text is no URI, where it is none.
pub open spec fn uri_problem(text: Seq<char>) -> Option<Seq<char>> {
    if is_short(text) {
        uri_fault(text)
    } else {
        Some("the URI is too long"@)
    }
}

/// A text that is no URI.
#[derive(Debug)]
pub struct InvalidUri {
    pub text: String,
    pub cause: String,
}

/// The version under which a document is announced.
pub const DOCUMENT_VERSION: i32 = 1;

/// A number counted from 1, counted from 0; the 0 that nobody should give stays 0.
pub open spec fn from_zero(n: u32) -> u32 {
    if n == 0 {
        0
    } else {
        (n - 1) as u32
    }
}

/// The place of a cursor that is given by line and column, counted from 1.
pub fn cursor_position(line: u32, character: u32) -> (r: Position)
    ensures
        r.line == from_zero(line),
        r.character == from_zero(character),
{
    Position {
        line: if line == 0 {
            0
        } else {
            line - 1
        },
        character: if character == 0 {
            0
        } else {
            character - 1
        },
    }
}

/// The parameters of a request about a place in a document.
pub open spec fn position_tree(uri: Seq<char>, line: u32, character: u32) -> JsonTree {
    JsonTree::Object(
        seq![
            (
                "position"@,
                JsonTree::Object(
                    seq![
                        ("character"@, JsonTree::Integer(character as int)),
                        ("line"@, JsonTree::Integer(line as int)),
                    ],
                ),
            ),
            ("textDocument"@, JsonTree::Object(seq![("uri"@, JsonTree::Text(uri))])),
        ],
    )
}

/// The parameters that announce an open document.
pub open spec fn open_tree(
    uri: Seq<char>,
    language_id: Seq<char>,
    version: i32,
    text: Seq<char>,
) -> JsonTree {
    JsonTree::Object(
        seq![
            (
                "textDocument"@,
                JsonTree::Object(
                    seq![
                        ("languageId"@, JsonTree::Text(language_id)),
                        ("text"@, JsonTree::Text(text)),
                        ("uri"@, JsonTree::Text(uri)),
                        ("version"@, JsonTree::Integer(version as int)),
                    ],
                ),
            ),
        ],
    )
}

/// The parameters that start a session for one workspace folder.
pub open spec fn initialize_tree(
    process_id: Option<u32>,
    root_uri: Seq<char>,
    workspace_name: Seq<char>,
) -> JsonTree {
    JsonTree::Object(
        seq![
            ("capabilities"@, JsonTree::Object(seq![])),
            (
                "processId"@,
                match process_id {
                    Some(id) => JsonTree::Integer(id as int),
                    None => JsonTree::Null,
                },
            ),
            ("rootUri"@, JsonTree::Null),
            (
                "workspaceFolders"@,
                JsonTree::Array(
                    seq![
                        JsonTree::Object(
                            seq![
                                ("name"@, JsonTree::Text(workspace_name)),
                                ("uri"@, JsonTree::Text(root_uri)),
                            ],
                        ),
                    ],
                ),
            ),
        ],
    )
}

/// Calls `Uri::from_str`, and `serde_json::to_value` on an `lsp_types::HoverParams` with that URI.
/// Trusted: this succeeds where the text is a URI, and the document is the one of a request about
/// a place; else it gives what the error of `Uri::from_str` shows.
#[verifier::external_body]
fn hover_value(uri: &str, line: u32, character: u32) -> (r: Result<serde_json::Value, String>)
    requires
        is_short(uri@),
    ensures
        match r {
            Ok(value) => uri_fault(uri@) is None && json_tree(value) == position_tree(
                uri@,
                line,
                character,
            ),
            Err(cause) => uri_fault(uri@) == Some(cause@),
        },
{
    let uri = uri.parse::<lsp_types::Uri>().map_err(|error| error.to_string())?;
    let params = lsp_types::HoverParams {
        text_document_position_params: lsp_types::TextDocumentPositionParams {
            text_document: lsp_types::TextDocumentIdentifier { uri },
            position: lsp_types::Position { line, character },
        },
        work_done_progress_params: Default::default(),
    };
    serde_json::to_value(params).map_err(|error| error.to_string())
}

/// Calls `Uri::from_str`, and `serde_json::to_value` on an `lsp_types::GotoDefinitionParams` with
/// that URI. Trusted: this succeeds where the text is a URI, and the document is the one of a
/// request about a place; else it gives what the error of `Uri::from_str` shows.
#[verifier::external_body]
fn definition_value(uri: &str, line: u32, character: u32) -> (r: Result<serde_json::Value, String>)
    requires
        is_short(uri@),
    ensures
        match r {
            Ok(value) => uri_fault(uri@) is None && json_tree(value) == position_tree(
                uri@,
                line,
                character,
            ),
            Err(cause) => uri_fault(uri@) == Some(cause@),
        },
{
    let uri = uri.parse::<lsp_types::Uri>().map_err(|error| error.to_string())?;
    let params = lsp_types::GotoDefinitionParams {
        text_document_position_params: lsp_types::TextDocumentPositionParams {
            text_document: lsp_types::TextDocumentIdentifier { uri },
            position: lsp_types::Position { line, character },
        },
        work_done_progress_params: Default::default(),
        partial_result_params: Default::default(),
    };
    serde_json::to_value(params).map_err(|error| error.to_string())
}

/// Calls `Uri::from_str`, and `serde_json::to_value` on an `lsp_types::DidOpenTextDocumentParams`
/// with that URI. Trusted: this succeeds where the text is a URI, and the document holds the
/// arguments; else it gives what the error of `Uri::from_str` shows.
#[verifier::external_body]
fn open_value_of(uri: &str, language_id: &str, version: i32, text: &str) -> (r: Result<
    serde_json::Value,
    String,
>)
    requires
        is_short(uri@),
    ensures
        match r {
            Ok(value) => uri_fault(uri@) is None && json_tree(value) == open_tree(
                uri@,
                language_id@,
                version,
                text@,
            ),
            Err(cause) => uri_fault(uri@) == Some(cause@),
        },
{
    let uri = uri.parse::<lsp_types::Uri>().map_err(|error| error.to_string())?;
    let params = lsp_types::DidOpenTextDocumentParams {
        text_document: lsp_types::TextDocumentItem {
            uri,
            language_id: language_id.to_string(),
            version,
            text: text.to_string(),
        },
    };
    serde_json::to_value(params).map_err(|error| error.to_string())
}

/// Calls `Uri::from_str`, and `serde_json::to_value` on an `lsp_types::InitializeParams` with one
/// workspace folder at that URI and without capabilities. Trusted: this succeeds where the text is
/// a URI, and what is not set is left out, but for the process and the root, which are null; else
/// it gives what the error of `Uri::from_str` shows.
#[verifier::external_body]
fn initialize_value(process_id: Option<u32>, root_uri: &str, workspace_name: &str) -> (r: Result<
    serde_json::Value,
    String,
>)
    requires
        is_short(root_uri@),
    ensures
        match r {
            Ok(value) => uri_fault(root_uri@) is None && json_tree(value) == initialize_tree(
                process_id,
                root_uri@,
                workspace_name@,
            ),
            Err(cause) => uri_fault(root_uri@) == Some(cause@),
        },
{
    let uri = root_uri.parse::<lsp_types::Uri>().map_err(|error| error.to_string())?;
    let params = lsp_types::InitializeParams {
        process_id,
        capabilities: lsp_types::ClientCapabilities::default(),
        workspace_folders: Some(vec![lsp_types::WorkspaceFolder {
            uri,
            name: workspace_name.to_string(),
        }]),
        ..Default::default()
    };
    serde_json::to_value(params).map_err(|error| error.to_string())
}

fn fits(text: &str) -> (r: bool)
    ensures
        r == is_short(text@),
{
    text.as_bytes().len() <= URI_LIMIT
}

fn refused(uri: &str) -> (r: Result<Json, InvalidUri>)
    requires
        !is_short(uri@),
    ensures
        r matches Err(error) && error.text@ == uri@ && uri_problem(uri@) == Some(error.cause@),
{
    Err(InvalidUri { text: uri.to_string(), cause: "the URI is too long".to_string() })
}

fn checked(value: Result<serde_json::Value, String>, uri: &str) -> (r: Result<Json, InvalidUri>)
    ensures
        match r {
            Ok(json) => value matches Ok(document) && json@ == json_tree(document),
            Err(error) => value == Err::<serde_json::Value, String>(error.cause) && error.text@
                == uri@,
        },
{
    match value {
        Ok(value) => Ok(json_of(value)),
        Err(cause) => Err(InvalidUri { text: uri.to_string(), cause }),
    }
}

/// The outcome of writing parameters that name a URI.
pub open spec fn params_outcome(r: Result<Json, InvalidUri>, uri: Seq<char>, tree: JsonTree) -> bool {
    match r {
        Ok(json) => uri_problem(uri) is None && json@ == tree,
        Err(error) => uri_problem(uri) == Some(error.cause@) && error.text@ == uri,
    }
}

/// The parameters of a hover request.
pub fn hover_params(uri: &str, position: &Position) -> (r: Result<Json, InvalidUri>)
    ensures
        params_outcome(r, uri@, position_tree(uri@, position.line, position.character)),
{
    if !fits(uri) {
        return refused(uri);
    }
    checked(hover_value(uri, position.line, position.character), uri)
}

/// The parameters of a definition request.
pub fn definition_params(uri: &str, position: &Position) -> (r: Result<Json, InvalidUri>)
    ensures
        params_outcome(r, uri@, position_tree(uri@, position.line, position.character)),
{
    if !fits(uri) {
        return refused(uri);
    }
    checked(definition_value(uri, position.line, position.character), uri)
}

/// The parameters that announce an open document.
pub fn open_params(uri: &str, language_id: &str, text: &str) -> (r: Result<Json, InvalidUri>)
    ensures
        params_outcome(r, uri@, open_tree(uri@, language_id@, DOCUMENT_VERSION, text@)),
{
    if !fits(uri) {
        return refused(uri);
    }
    checked(open_value_of(uri, language_id, DOCUMENT_VERSION, text), uri)
}

/// The parameters that start a session for one workspace folder. The server is not told which
/// process starts it.
pub fn initialize_params(root_uri: &str, workspace_name: &str) -> (r: Result<Json, InvalidUri>)
    ensures
        params_outcome(r, root_uri@, initialize_tree(None, root_uri@, workspace_name@)),
{
    if !fits(root_uri) {
        return refused(root_uri);
    }
    checked(initialize_value(None, root_uri, workspace_name), root_uri)
}

/// A request about a place says the document and the place: line and column each under its name.
pub proof fn lemma_places_are_written(uri: Seq<char>, line: u32, character: u32)
    ensures
        field_of(position_tree(uri, line, character).field("position"@), "line"@) == Some(
            JsonTree::Integer(line as int),
        ),
        field_of(position_tree(uri, line, character).field("position"@), "character"@) == Some(
            JsonTree::Integer(character as int),
        ),
        field_of(position_tree(uri, line, character).field("textDocument"@), "uri"@) == Some(
            JsonTree::Text(uri),
        ),
{
    reveal_strlit("position");
    reveal_strlit("textDocument");
    reveal_strlit("character");
    reveal_strlit("line");
    assert("position"@.len() != "textDocument"@.len() && "character"@.len() != "line"@.len());
    let fields = position_tree(uri, line, character)->Object_0;
    lemma_lookup_at(fields, "position"@, 0);
    lemma_lookup_at(fields, "textDocument"@, 1);
    let place = fields[0].1->Object_0;
    lemma_lookup_at(place, "character"@, 0);
    lemma_lookup_at(place, "line"@, 1);
    lemma_lookup_at(fields[1].1->Object_0, "uri"@, 0);
}

/// An open document is announced with its address, its language, its version and its text.
pub proof fn lemma_documents_are_written(
    uri: Seq<char>,
    language_id: Seq<char>,
    version: i32,
    text: Seq<char>,
)
    ensures
        ({
            let document = open_tree(uri, language_id, version, text).field("textDocument"@);
            &&& field_of(document, "uri"@) == Some(JsonTree::Text(uri))
            &&& field_of(document, "languageId"@) == Some(JsonTree::Text(language_id))
            &&& field_of(document, "version"@) == Some(JsonTree::Integer(version as int))
            &&& field_of(document, "text"@) == Some(JsonTree::Text(text))
        }),
        DOCUMENT_VERSION == 1,
{
    reveal_strlit("languageId");
    reveal_strlit("text");
    reveal_strlit("uri");
    reveal_strlit("version");
    assert("languageId"@.len() == 10 && "text"@.len() == 4);
    assert("uri"@.len() == 3 && "version"@.len() == 7);
    let fields = open_tree(uri, language_id, version, text)->Object_0;
    lemma_lookup_at(fields, "textDocument"@, 0);
    let document = fields[0].1->Object_0;
    lemma_lookup_at(document, "languageId"@, 0);
    lemma_lookup_at(document, "text"@, 1);
    lemma_lookup_at(document, "uri"@, 2);
    lemma_lookup_at(document, "version"@, 3);
}

/// A number counted from 1 is one more than counted from 0.
pub proof fn lemma_counting_from_zero(n: u32)
    ensures
        n > 0 ==> from_zero(n) + 1 == n,
        from_zero(0) == 0,
{
}

/// A text is a URI as far as its reader says so; only one of more than 2147483647 bytes is refused
/// without asking.
pub proof fn lemma_only_huge_texts_are_refused_unread(text: Seq<char>)
    ensures
        encode_utf8(text).len() <= 0x7fff_ffff ==> uri_problem(text) == uri_fault(text),
        encode_utf8(text).len() > 0x7fff_ffff ==> uri_problem(text) == Some("the URI is too long"@),
{
}

/// Parameters are written just where the text is a URI, and otherwise the text and the reason are
/// given back.
pub proof fn lemma_parameters_are_written_for_uris(
    r: Result<Json, InvalidUri>,
    uri: Seq<char>,
    tree: JsonTree,
)
    requires
        params_outcome(r, uri, tree),
    ensures
        r is Ok <==> uri_problem(uri) is None,
        r matches Ok(json) ==> json@ == tree,
        r matches Err(error) ==> error.text@ == uri && uri_problem(uri) == Some(error.cause@),
{
}

/// A session is started for one folder, by its address and its name; the process is told where it is
/// given.
pub proof fn lemma_sessions_are_written(
    process_id: Option<u32>,
    root_uri: Seq<char>,
    workspace_name: Seq<char>,
)
    ensures
        ({
            let tree = initialize_tree(process_id, root_uri, workspace_name);
            &&& tree.field("processId"@) == Some(
                match process_id {
                    Some(id) => JsonTree::Integer(id as int),
                    None => JsonTree::Null,
                },
            )
            &&& tree.field("rootUri"@) == Some(JsonTree::Null)
            &&& tree.field("workspaceFolders"@) matches Some(JsonTree::Array(folders))
            &&& folders.len() == 1
            &&& folders[0].field("name"@) == Some(JsonTree::Text(workspace_name))
            &&& folders[0].field("uri"@) == Some(JsonTree::Text(root_uri))
        }),
{
    reveal_strlit("capabilities");
    reveal_strlit("processId");
    reveal_strlit("rootUri");
    reveal_strlit("workspaceFolders");
    reveal_strlit("name");
    reveal_strlit("uri");
    assert("capabilities"@.len() == 12 && "processId"@.len() == 9 && "rootUri"@.len() == 7);
    assert("workspaceFolders"@.len() == 16 && "name"@.len() == 4 && "uri"@.len() == 3);
    let fields = initialize_tree(process_id, root_uri, workspace_name)->Object_0;
    lemma_lookup_at(fields, "processId"@, 1);
    lemma_lookup_at(fields, "rootUri"@, 2);
    lemma_lookup_at(fields, "workspaceFolders"@, 3);
    let folder = fields[3].1->Array_0[0]->Object_0;
    lemma_lookup_at(folder, "name"@, 0);
    lemma_lookup_at(folder, "uri"@, 1);
}

} // verus!
