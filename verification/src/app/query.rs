//! The conversation with a language server about the symbol at a place.
//!
//! The query says what to do next, and goes on with what that has given: it finds the file, starts
//! the server, opens the document, asks for the hover and the definition, again where both are
//! empty, and ends the session. Messages that answer something else are passed over.

use vstd::prelude::*;
use vstd::string::*;

use crate::app::reference::{
    begin_reference, choose_server, file_uri_of, finish_reference, hover_output, is_found,
    plan_document, reference_to, requested_file, retry_delay, server_of, DocumentPlan, Fetch,
    FetchStep, PermalinkRequest, PermalinkView, Reference, ReferenceView,
};
use crate::app::requests::{CopyMarkdownOutput, CopyMarkdownRequest, HoverRequest};
use crate::git::{GitHubLink, GitHubLinkView};
use crate::json::{json_text, Json, JsonObject, JsonTree};
use crate::lsp::client::{
    client_arguments, encode_message, framed, mux_arguments, notification_message,
    notification_tree, read_response, request_tree, response_to, RequestCounter, Response,
    ResponseView, DEFAULT_LSP_TIMEOUT_MS,
};
use crate::lsp::params::{
    cursor_position, definition_params, from_zero, hover_params, initialize_params,
    initialize_tree, open_params, open_tree, position_tree, uri_problem, Position,
    DOCUMENT_VERSION,
};
use crate::paths::{file_name_of, joined_path};
use crate::symbol::extractor::{language_of, symbol_for, text_for};
use crate::symbol::formatter::markdown_reference;
use crate::symbol::types::{HoverOutput, SymbolView};
use crate::text::{opt_view, past_prefix, string_views};

verus! {

/// What a query is for.
#[derive(Debug, Clone, Copy)]
pub enum Goal {
    /// The symbol and its text.
    Hover,
    /// A reference to the symbol, as a link to GitHub where that is asked for.
    Markdown { use_github_link: bool },
}

/// How long a server is left alone with a document before it is asked for a hover, in
/// milliseconds.
pub const HOVER_DELAY_MS: u64 = 500;

/// A request to the server.
#[derive(Debug, Clone, Copy)]
pub enum Asked {
    Initialize,
    Hover,
    Definition,
    Shutdown,
}

/// A notification to the server.
#[derive(Debug, Clone, Copy)]
pub enum Told {
    Initialized,
    Open,
    Exit,
}

/// What went wrong.
#[derive(Debug, Clone, Copy)]
pub enum Fault {
    /// The root or the file has no full path.
    Path,
    /// The file could not be read.
    Read,
    /// The server could not be started.
    Start,
    /// A path makes no URI.
    Uri,
    /// A message could not be sent.
    Send,
    /// No message came.
    Receive,
    /// The server has answered with an error.
    Server,
    /// There is no symbol at the place.
    Nothing,
    /// The permanent link could not be made.
    Permalink,
}

/// Why a query has failed.
#[derive(Debug)]
pub struct QueryError {
    pub fault: Fault,
    pub cause: String,
}

/// What a query has found.
pub enum QueryOutput {
    Hover(HoverOutput),
    Markdown(CopyMarkdownOutput),
}

/// What a [`QueryOutput`] says.
pub enum OutputView {
    Hover(SymbolView, Option<Seq<char>>),
    Markdown(Seq<char>),
}

impl QueryOutput {
    /// What the output says.
    pub open spec fn view(self) -> OutputView {
        match self {
            QueryOutput::Hover(output) => OutputView::Hover(
                output.symbol_info@,
                opt_view(output.hover_text),
            ),
            QueryOutput::Markdown(output) => OutputView::Markdown(output.markdown@),
        }
    }
}

/// What to do next, or how the query has ended.
pub enum QueryAction {
    /// Find the full path.
    Canonicalize(String),
    /// Read the file.
    ReadFile(String),
    /// Start `lspmux` with the arguments; a message is waited for so many milliseconds.
    Start { arguments: Vec<String>, timeout_ms: u64 },
    /// Send the text to the server.
    Send(String),
    /// Wait for a message.
    Receive,
    /// Wait for so many milliseconds.
    Sleep(u64),
    /// Make a permanent link to the line of the file.
    Permalink { path: String, line: u32, remote: String },
    /// The session has ended, with this result.
    Finished(QueryOutput),
    /// The query has failed.
    Failed(QueryError),
}

/// What a [`QueryAction`] says.
pub enum QueryActionView {
    Canonicalize(Seq<char>),
    ReadFile(Seq<char>),
    Start(Seq<Seq<char>>, u64),
    Send(Seq<char>),
    Receive,
    Sleep(nat),
    Permalink(Seq<char>, u32, Seq<char>),
    Finished(OutputView),
    Failed(Fault, Seq<char>),
}

impl QueryAction {
    /// What the action says.
    pub open spec fn view(self) -> QueryActionView {
        match self {
            QueryAction::Canonicalize(path) => QueryActionView::Canonicalize(path@),
            QueryAction::ReadFile(path) => QueryActionView::ReadFile(path@),
            QueryAction::Start { arguments, timeout_ms } => QueryActionView::Start(
                string_views(arguments@),
                timeout_ms,
            ),
            QueryAction::Send(text) => QueryActionView::Send(text@),
            QueryAction::Receive => QueryActionView::Receive,
            QueryAction::Sleep(ms) => QueryActionView::Sleep(ms as nat),
            QueryAction::Permalink { path, line, remote } => QueryActionView::Permalink(
                path@,
                line,
                remote@,
            ),
            QueryAction::Finished(output) => QueryActionView::Finished(output@),
            QueryAction::Failed(error) => QueryActionView::Failed(error.fault, error.cause@),
        }
    }
}

/// What an action has given.
pub enum QueryEvent {
    Path(Result<String, String>),
    Text(Result<String, String>),
    Started(Result<(), String>),
    Sent(Result<(), String>),
    Message(Result<Json, String>),
    Slept,
    Linked(Result<GitHubLink, String>),
}

/// What a [`QueryEvent`] says.
pub enum QueryEventView {
    Path(Result<Seq<char>, Seq<char>>),
    Text(Result<Seq<char>, Seq<char>>),
    Started(Result<(), Seq<char>>),
    Sent(Result<(), Seq<char>>),
    Message(Result<JsonTree, Seq<char>>),
    Slept,
    Linked(Result<GitHubLinkView, Seq<char>>),
}

/// What the outcome of something that gives a text says.
pub open spec fn text_outcome(r: Result<String, String>) -> Result<Seq<char>, Seq<char>> {
    match r {
        Ok(text) => Ok(text@),
        Err(cause) => Err(cause@),
    }
}

/// What the outcome of something that gives nothing says.
pub open spec fn plain_outcome(r: Result<(), String>) -> Result<(), Seq<char>> {
    match r {
        Ok(_) => Ok(()),
        Err(cause) => Err(cause@),
    }
}

impl QueryEvent {
    /// What the event says.
    pub open spec fn view(self) -> QueryEventView {
        match self {
            QueryEvent::Path(r) => QueryEventView::Path(text_outcome(r)),
            QueryEvent::Text(r) => QueryEventView::Text(text_outcome(r)),
            QueryEvent::Started(r) => QueryEventView::Started(plain_outcome(r)),
            QueryEvent::Sent(r) => QueryEventView::Sent(plain_outcome(r)),
            QueryEvent::Message(r) => QueryEventView::Message(
                match r {
                    Ok(message) => Ok(message@),
                    Err(cause) => Err(cause@),
                },
            ),
            QueryEvent::Slept => QueryEventView::Slept,
            QueryEvent::Linked(r) => QueryEventView::Linked(
                match r {
                    Ok(link) => Ok(link@),
                    Err(cause) => Err(cause@),
                },
            ),
        }
    }
}

/// How far a query has come.
enum Stage {
    Root,
    File,
    Reading,
    Starting,
    Asking(Asked, i32),
    Waiting(Asked, i32),
    Telling(Told),
    Sleeping,
    Linking(PermalinkRequest),
    Done,
}

/// How far a query has come.
pub enum StageView {
    /// The full path of the root is looked up.
    Root,
    /// The full path of the file is looked up.
    File,
    /// The file is read.
    Reading,
    /// The server is started.
    Starting,
    /// A request is sent.
    Asking(Asked, i32),
    /// The answer to a request is waited for.
    Waiting(Asked, i32),
    /// A notification is sent.
    Telling(Told),
    /// The server is left alone.
    Sleeping,
    /// A permanent link for the reference to a symbol is made.
    Linking(PermalinkView),
    /// The query has ended.
    Done,
}

/// A conversation with a language server about the symbol at a place.
pub struct Query {
    goal: Goal,
    remote: String,
    position: Position,
    file: String,
    server: Option<String>,
    delay_ms: u64,
    timeout_ms: u64,
    fetch: Fetch,
    counter: RequestCounter,
    root: String,
    path: String,
    text: String,
    hover: Json,
    output: Option<QueryOutput>,
    stage: Stage,
}

/// What a [`Query`] says.
pub struct QueryView {
    pub goal: Goal,
    pub remote: Seq<char>,
    /// The place, counted from 0.
    pub line: u32,
    pub character: u32,
    /// The file, as it was asked for.
    pub file: Seq<char>,
    pub server: Option<Seq<char>>,
    pub delay_ms: u64,
    pub timeout_ms: u64,
    /// How often both answers were empty.
    pub failed: u32,
    /// How often to ask again in all.
    pub limit: u32,
    /// The id of the next request.
    pub next_id: i32,
    /// The full path of the root.
    pub root: Seq<char>,
    /// The full path of the file.
    pub path: Seq<char>,
    pub text: Seq<char>,
    /// The last hover answer.
    pub hover: JsonTree,
    pub output: Option<OutputView>,
    pub stage: StageView,
}

impl Stage {
    spec fn view(self) -> StageView {
        match self {
            Stage::Root => StageView::Root,
            Stage::File => StageView::File,
            Stage::Reading => StageView::Reading,
            Stage::Starting => StageView::Starting,
            Stage::Asking(asked, id) => StageView::Asking(asked, id),
            Stage::Waiting(asked, id) => StageView::Waiting(asked, id),
            Stage::Telling(told) => StageView::Telling(told),
            Stage::Sleeping => StageView::Sleeping,
            Stage::Linking(request) => StageView::Linking(request@),
            Stage::Done => StageView::Done,
        }
    }
}

impl Query {
    /// What the query says.
    pub closed spec fn view(self) -> QueryView {
        QueryView {
            goal: self.goal,
            remote: self.remote@,
            line: self.position.line,
            character: self.position.character,
            file: self.file@,
            server: opt_view(self.server),
            delay_ms: self.delay_ms,
            timeout_ms: self.timeout_ms,
            failed: self.fetch.failed(),
            limit: self.fetch.limit(),
            next_id: self.counter.next(),
            root: self.root@,
            path: self.path@,
            text: self.text@,
            hover: self.hover@,
            output: match self.output {
                Some(output) => Some(output@),
                None => None,
            },
            stage: self.stage@,
        }
    }
}

/// The event is what the stage waits for.
pub open spec fn query_awaits(stage: StageView, event: QueryEventView) -> bool {
    match stage {
        StageView::Root => event is Path,
        StageView::File => event is Path,
        StageView::Reading => event is Text,
        StageView::Starting => event is Started,
        StageView::Asking(_, _) => event is Sent,
        StageView::Waiting(_, _) => event is Message,
        StageView::Telling(_) => event is Sent,
        StageView::Sleeping => event is Slept,
        StageView::Linking(_) => event is Linked,
        StageView::Done => false,
    }
}

/// The query fails.
pub open spec fn query_fails(q: QueryView, fault: Fault, cause: Seq<char>) -> (
    QueryView,
    QueryActionView,
) {
    (QueryView { stage: StageView::Done, ..q }, QueryActionView::Failed(fault, cause))
}

/// A request is sent, under the next id.
pub open spec fn ask(q: QueryView, asked: Asked, method: Seq<char>, params: JsonTree) -> (
    QueryView,
    QueryActionView,
) {
    (
        QueryView {
            stage: StageView::Asking(asked, q.next_id),
            next_id: (q.next_id + 1) as i32,
            ..q
        },
        QueryActionView::Send(framed(json_text(request_tree(q.next_id as int, method, params)))),
    )
}

/// A notification is sent.
pub open spec fn tell(q: QueryView, told: Told, method: Seq<char>, params: JsonTree) -> (
    QueryView,
    QueryActionView,
) {
    (
        QueryView { stage: StageView::Telling(told), ..q },
        QueryActionView::Send(framed(json_text(notification_tree(method, params)))),
    )
}

/// The session begins, for the workspace at the root.
pub open spec fn ask_initialize(q: QueryView) -> (QueryView, QueryActionView) {
    let uri = file_uri_of(q.root);
    if uri_problem(uri) is None {
        ask(
            q,
            Asked::Initialize,
            "initialize"@,
            initialize_tree(
                None,
                uri,
                match file_name_of(q.root) {
                    Some(name) => name,
                    None => "workspace"@,
                },
            ),
        )
    } else {
        query_fails(q, Fault::Uri, uri_problem(uri)->0)
    }
}

/// The document is announced.
pub open spec fn tell_open(q: QueryView) -> (QueryView, QueryActionView) {
    let uri = file_uri_of(q.path);
    if uri_problem(uri) is None {
        tell(
            q,
            Told::Open,
            "textDocument/didOpen"@,
            open_tree(uri, language_of(q.path), DOCUMENT_VERSION, q.text),
        )
    } else {
        query_fails(q, Fault::Uri, uri_problem(uri)->0)
    }
}

/// The hover or the definition at the place is asked for.
pub open spec fn ask_place(q: QueryView, asked: Asked, method: Seq<char>) -> (
    QueryView,
    QueryActionView,
) {
    let uri = file_uri_of(q.path);
    if uri_problem(uri) is None {
        ask(q, asked, method, position_tree(uri, q.line, q.character))
    } else {
        query_fails(q, Fault::Uri, uri_problem(uri)->0)
    }
}

/// The result is there, and the session is ended.
pub open spec fn shut_down(q: QueryView, output: OutputView) -> (QueryView, QueryActionView) {
    ask(
        QueryView { output: Some(output), ..q },
        Asked::Shutdown,
        "shutdown"@,
        JsonTree::Null,
    )
}

/// The reference to the symbol that the answers show is written, or a permanent link is asked for.
pub open spec fn refer(
    q: QueryView,
    hover: JsonTree,
    definition: JsonTree,
    use_github_link: bool,
) -> (QueryView, QueryActionView) {
    let symbol = symbol_for(language_of(q.path), hover, definition);
    if !is_found(symbol) {
        query_fails(q, Fault::Nothing, "No symbol found at cursor position"@)
    } else {
        match reference_to(symbol, use_github_link, q.remote) {
            ReferenceView::Ready(markdown) => shut_down(q, OutputView::Markdown(markdown)),
            ReferenceView::NeedsPermalink(request) => (
                QueryView { stage: StageView::Linking(request), ..q },
                QueryActionView::Permalink(request.path, request.line, request.remote),
            ),
        }
    }
}

/// Both answers are there. For a reference they are asked for again where both are empty.
pub open spec fn conclude(q: QueryView, definition: JsonTree) -> (QueryView, QueryActionView) {
    match q.goal {
        Goal::Hover => shut_down(
            q,
            OutputView::Hover(
                symbol_for(language_of(q.path), q.hover, definition),
                text_for(language_of(q.path), q.hover),
            ),
        ),
        Goal::Markdown { use_github_link } => if q.hover is Null && definition is Null && q.failed
            < q.limit {
            (
                QueryView { failed: (q.failed + 1) as u32, stage: StageView::Sleeping, ..q },
                QueryActionView::Sleep(retry_delay(q.failed)),
            )
        } else {
            refer(q, q.hover, definition, use_github_link)
        },
    }
}

/// A request was answered.
pub open spec fn answered(q: QueryView, asked: Asked, result: JsonTree) -> (
    QueryView,
    QueryActionView,
) {
    match asked {
        Asked::Initialize => tell(
            q,
            Told::Initialized,
            "initialized"@,
            JsonTree::Object(seq![]),
        ),
        Asked::Hover => ask_place(
            QueryView { hover: result, ..q },
            Asked::Definition,
            "textDocument/definition"@,
        ),
        Asked::Definition => conclude(q, result),
        Asked::Shutdown => tell(q, Told::Exit, "exit"@, JsonTree::Null),
    }
}

/// A notification was sent.
pub open spec fn told_it(q: QueryView, told: Told) -> (QueryView, QueryActionView) {
    match told {
        Told::Initialized => tell_open(q),
        Told::Open => (
            QueryView { stage: StageView::Sleeping, ..q },
            QueryActionView::Sleep(q.delay_ms as nat),
        ),
        Told::Exit => (
            QueryView { stage: StageView::Done, output: None, ..q },
            QueryActionView::Finished(q.output->0),
        ),
    }
}

/// How the query goes on.
pub open spec fn next_query(q: QueryView, event: QueryEventView) -> (QueryView, QueryActionView) {
    match (q.stage, event) {
        (StageView::Root, QueryEventView::Path(r)) => match r {
            Ok(root) => (
                QueryView { root, stage: StageView::File, ..q },
                QueryActionView::Canonicalize(joined_path(root, q.file)),
            ),
            Err(cause) => query_fails(q, Fault::Path, cause),
        },
        (StageView::File, QueryEventView::Path(r)) => match r {
            Ok(path) => (
                QueryView { path, stage: StageView::Reading, ..q },
                QueryActionView::ReadFile(path),
            ),
            Err(cause) => query_fails(q, Fault::Path, cause),
        },
        (StageView::Reading, QueryEventView::Text(r)) => match r {
            Ok(text) => (
                QueryView { text, stage: StageView::Starting, ..q },
                QueryActionView::Start(
                    mux_arguments(
                        match q.server {
                            Some(server) => server,
                            None => server_of(q.path),
                        },
                    ),
                    q.timeout_ms,
                ),
            ),
            Err(cause) => query_fails(q, Fault::Read, cause),
        },
        (StageView::Starting, QueryEventView::Started(r)) => match r {
            Ok(_) => ask_initialize(q),
            Err(cause) => query_fails(q, Fault::Start, cause),
        },
        (StageView::Asking(asked, id), QueryEventView::Sent(r)) => match r {
            Ok(_) => (
                QueryView { stage: StageView::Waiting(asked, id), ..q },
                QueryActionView::Receive,
            ),
            Err(cause) => query_fails(q, Fault::Send, cause),
        },
        (StageView::Waiting(asked, id), QueryEventView::Message(r)) => match r {
            Ok(message) => match response_to(message, id) {
                ResponseView::Other => (q, QueryActionView::Receive),
                ResponseView::Failed(text) => query_fails(q, Fault::Server, text),
                ResponseView::Result(result) => answered(q, asked, result),
            },
            Err(cause) => query_fails(q, Fault::Receive, cause),
        },
        (StageView::Telling(told), QueryEventView::Sent(r)) => match r {
            Ok(_) => told_it(q, told),
            Err(cause) => query_fails(q, Fault::Send, cause),
        },
        (StageView::Sleeping, QueryEventView::Slept) => ask_place(
            q,
            Asked::Hover,
            "textDocument/hover"@,
        ),
        (StageView::Linking(request), QueryEventView::Linked(r)) => match r {
            Ok(link) => shut_down(
                q,
                OutputView::Markdown(markdown_reference(request.symbol, Some(link.url))),
            ),
            Err(cause) => query_fails(q, Fault::Permalink, cause),
        },
        _ => (q, QueryActionView::Receive),
    }
}

/// A query that has asked for nothing yet.
pub open spec fn new_query(
    goal: Goal,
    remote: Seq<char>,
    line: u32,
    character: u32,
    file: Seq<char>,
    server: Option<Seq<char>>,
    delay_ms: u64,
    timeout_ms: u64,
    limit: u32,
) -> QueryView {
    QueryView {
        goal,
        remote,
        line: from_zero(line),
        character: from_zero(character),
        file,
        server,
        delay_ms,
        timeout_ms,
        failed: 0,
        limit,
        next_id: 1,
        root: seq![],
        path: seq![],
        text: seq![],
        hover: JsonTree::Null,
        output: None,
        stage: StageView::Root,
    }
}

/// Where the session is being ended, the result is there.
pub open spec fn has_output(q: QueryView) -> bool {
    match q.stage {
        StageView::Asking(Asked::Shutdown, _) => q.output is Some,
        StageView::Waiting(Asked::Shutdown, _) => q.output is Some,
        StageView::Telling(Told::Exit) => q.output is Some,
        _ => true,
    }
}

/// Begins a query for the symbol at a place and the text that the server shows for it.
pub fn run(request: HoverRequest) -> (r: (Query, QueryAction))
    ensures
        r.0@ == new_query(
            Goal::Hover,
            seq![],
            request.line,
            request.character,
            request.file@,
            Some(request.server_path@),
            HOVER_DELAY_MS,
            DEFAULT_LSP_TIMEOUT_MS,
            0,
        ),
        r.1@ == QueryActionView::Canonicalize(request.root@),
{
    let query: Query = Query {
        goal: Goal::Hover,
        remote: String::new(),
        position: cursor_position(request.line, request.character),
        file: request.file,
        server: Some(request.server_path),
        delay_ms: HOVER_DELAY_MS,
        timeout_ms: DEFAULT_LSP_TIMEOUT_MS,
        fetch: Fetch::new(0),
        counter: RequestCounter::new(),
        root: String::new(),
        path: String::new(),
        text: String::new(),
        hover: Json::Null,
        output: None,
        stage: Stage::Root,
    };
    (query, QueryAction::Canonicalize(request.root))
}

/// Begins a query for a reference to the symbol at a place.
pub fn copy_markdown(request: CopyMarkdownRequest) -> (r: (Query, QueryAction))
    ensures
        r.0@ == new_query(
            Goal::Markdown { use_github_link: request.use_github_link },
            request.remote@,
            request.line,
            request.character,
            request.file@,
            opt_view(request.server_path),
            request.lsp_init_delay_ms,
            request.lsp_timeout_ms,
            request.lsp_max_retries,
        ),
        r.1@ == QueryActionView::Canonicalize(request.root@),
{
    let query: Query = Query {
        goal: Goal::Markdown { use_github_link: request.use_github_link },
        remote: request.remote,
        position: cursor_position(request.line, request.character),
        file: request.file,
        server: request.server_path,
        delay_ms: request.lsp_init_delay_ms,
        timeout_ms: request.lsp_timeout_ms,
        fetch: Fetch::new(request.lsp_max_retries),
        counter: RequestCounter::new(),
        root: String::new(),
        path: String::new(),
        text: String::new(),
        hover: Json::Null,
        output: None,
        stage: Stage::Root,
    };
    (query, QueryAction::Canonicalize(request.root))
}

impl Query {
    /// Whether another request can be numbered.
    pub fn can_continue(&self) -> (r: bool)
        ensures
            r == (self@.next_id < i32::MAX),
    {
        self.counter.can_request()
    }

    fn fail(&mut self, fault: Fault, cause: String) -> (action: QueryAction)
        ensures
            (final(self)@, action@) == query_fails(old(self)@, fault, cause@),
    {
        self.stage = Stage::Done;
        QueryAction::Failed(QueryError { fault, cause })
    }

    fn send_request(&mut self, asked: Asked, method: &str, params: Json) -> (action: QueryAction)
        requires
            old(self)@.next_id < i32::MAX,
        ensures
            (final(self)@, action@) == ask(old(self)@, asked, method@, params@),
    {
        let (id, message): (i32, Json) = self.counter.request(method, params);
        self.stage = Stage::Asking(asked, id);
        QueryAction::Send(encode_message(&message))
    }

    fn send_notification(&mut self, told: Told, method: &str, params: Json) -> (action: QueryAction)
        ensures
            (final(self)@, action@) == tell(old(self)@, told, method@, params@),
    {
        let message: Json = notification_message(method, params);
        self.stage = Stage::Telling(told);
        QueryAction::Send(encode_message(&message))
    }

    fn initialize_lsp_client(&mut self) -> (action: QueryAction)
        requires
            old(self)@.next_id < i32::MAX,
        ensures
            (final(self)@, action@) == ask_initialize(old(self)@),
    {
        let plan: DocumentPlan = plan_document(self.root.as_str(), self.path.as_str());
        match initialize_params(plan.root_uri.as_str(), plan.workspace_name.as_str()) {
            Ok(params) => self.send_request(Asked::Initialize, "initialize", params),
            Err(error) => self.fail(Fault::Uri, error.cause),
        }
    }

    fn open_document(&mut self) -> (action: QueryAction)
        ensures
            (final(self)@, action@) == tell_open(old(self)@),
    {
        let plan: DocumentPlan = plan_document(self.root.as_str(), self.path.as_str());
        match open_params(
            plan.file_uri.as_str(),
            plan.language_id.as_str(),
            self.text.as_str(),
        ) {
            Ok(params) => self.send_notification(Told::Open, "textDocument/didOpen", params),
            Err(error) => self.fail(Fault::Uri, error.cause),
        }
    }

    fn hover(&mut self) -> (action: QueryAction)
        requires
            old(self)@.next_id < i32::MAX,
        ensures
            (final(self)@, action@) == ask_place(
                old(self)@,
                Asked::Hover,
                "textDocument/hover"@,
            ),
    {
        let plan: DocumentPlan = plan_document(self.root.as_str(), self.path.as_str());
        match hover_params(plan.file_uri.as_str(), &self.position) {
            Ok(params) => self.send_request(Asked::Hover, "textDocument/hover", params),
            Err(error) => self.fail(Fault::Uri, error.cause),
        }
    }

    fn definition(&mut self) -> (action: QueryAction)
        requires
            old(self)@.next_id < i32::MAX,
        ensures
            (final(self)@, action@) == ask_place(
                old(self)@,
                Asked::Definition,
                "textDocument/definition"@,
            ),
    {
        let plan: DocumentPlan = plan_document(self.root.as_str(), self.path.as_str());
        match definition_params(plan.file_uri.as_str(), &self.position) {
            Ok(params) => self.send_request(Asked::Definition, "textDocument/definition", params),
            Err(error) => self.fail(Fault::Uri, error.cause),
        }
    }

    fn shutdown(&mut self, output: QueryOutput) -> (action: QueryAction)
        requires
            old(self)@.next_id < i32::MAX,
        ensures
            (final(self)@, action@) == shut_down(old(self)@, output@),
    {
        self.output = Some(output);
        self.send_request(Asked::Shutdown, "shutdown", Json::Null)
    }

    fn refer_to(&mut self, definition: &Json, use_github_link: bool) -> (action: QueryAction)
        requires
            old(self)@.next_id < i32::MAX,
        ensures
            (final(self)@, action@) == refer(
                old(self)@,
                old(self)@.hover,
                definition@,
                use_github_link,
            ),
    {
        let plan: DocumentPlan = plan_document(self.root.as_str(), self.path.as_str());
        let found: HoverOutput = hover_output(plan.language_id.as_str(), &self.hover, definition);
        match begin_reference(found.symbol_info, use_github_link, self.remote.as_str()) {
            Some(Reference::Ready(output)) => self.shutdown(QueryOutput::Markdown(output)),
            Some(Reference::NeedsPermalink(request)) => {
                let path: String = request.path.clone();
                let line: u32 = request.line;
                let remote: String = request.remote.clone();
                self.stage = Stage::Linking(request);
                QueryAction::Permalink { path, line, remote }
            },
            None => self.fail(Fault::Nothing, "No symbol found at cursor position".to_string()),
        }
    }

    fn fetch_symbol_with_retry(&mut self, definition: &Json) -> (action: QueryAction)
        requires
            old(self)@.next_id < i32::MAX,
        ensures
            (final(self)@, action@) == conclude(old(self)@, definition@),
    {
        match self.goal {
            Goal::Hover => {
                let plan: DocumentPlan = plan_document(self.root.as_str(), self.path.as_str());
                let found: HoverOutput = hover_output(
                    plan.language_id.as_str(),
                    &self.hover,
                    definition,
                );
                self.shutdown(QueryOutput::Hover(found))
            },
            Goal::Markdown { use_github_link } => match self.fetch.after(&self.hover, definition) {
                FetchStep::Retry(delay) => {
                    self.stage = Stage::Sleeping;
                    QueryAction::Sleep(delay)
                },
                _ => self.refer_to(definition, use_github_link),
            },
        }
    }

    fn take_answer(&mut self, asked: Asked, result: Json) -> (action: QueryAction)
        requires
            old(self)@.next_id < i32::MAX,
        ensures
            (final(self)@, action@) == answered(old(self)@, asked, result@),
    {
        match asked {
            Asked::Initialize => {
                let object: JsonObject = JsonObject::new();
                let params: Json = Json::Object(object);
                assert(params@ == JsonTree::Object(seq![]));
                self.send_notification(Told::Initialized, "initialized", params)
            },
            Asked::Hover => {
                self.hover = result;
                self.definition()
            },
            Asked::Definition => self.fetch_symbol_with_retry(&result),
            Asked::Shutdown => self.send_notification(Told::Exit, "exit", Json::Null),
        }
    }

    fn after_notification(&mut self, told: Told) -> (action: QueryAction)
        requires
            told is Exit ==> old(self)@.output is Some,
        ensures
            (final(self)@, action@) == told_it(old(self)@, told),
    {
        match told {
            Told::Initialized => self.open_document(),
            Told::Open => {
                self.stage = Stage::Sleeping;
                QueryAction::Sleep(self.delay_ms)
            },
            Told::Exit => {
                self.stage = Stage::Done;
                match self.output.take() {
                    Some(output) => QueryAction::Finished(output),
                    None => QueryAction::Receive,
                }
            },
        }
    }

    /// Goes on with what an action has given, and says what to do next.
    pub fn step(&mut self, event: QueryEvent) -> (action: QueryAction)
        requires
            query_awaits(old(self)@.stage, event@),
            has_output(old(self)@),
            old(self)@.next_id < i32::MAX,
        ensures
            (final(self)@, action@) == next_query(old(self)@, event@),
            has_output(final(self)@),
    {
        let mut current: Stage = Stage::Done;
        std::mem::swap(&mut current, &mut self.stage);
        match (current, event) {
            (Stage::Root, QueryEvent::Path(r)) => match r {
                Ok(root) => {
                    let file: String = requested_file(root.as_str(), self.file.as_str());
                    self.root = root;
                    self.stage = Stage::File;
                    QueryAction::Canonicalize(file)
                },
                Err(cause) => self.fail(Fault::Path, cause),
            },
            (Stage::File, QueryEvent::Path(r)) => match r {
                Ok(path) => {
                    self.path = path.clone();
                    self.stage = Stage::Reading;
                    QueryAction::ReadFile(path)
                },
                Err(cause) => self.fail(Fault::Path, cause),
            },
            (Stage::Reading, QueryEvent::Text(r)) => match r {
                Ok(text) => {
                    self.text = text;
                    self.stage = Stage::Starting;
                    let asked: Option<&str> = match &self.server {
                        Some(server) => Some(server.as_str()),
                        None => None,
                    };
                    let server: String = choose_server(asked, self.path.as_str());
                    QueryAction::Start {
                        arguments: client_arguments(server.as_str()),
                        timeout_ms: self.timeout_ms,
                    }
                },
                Err(cause) => self.fail(Fault::Read, cause),
            },
            (Stage::Starting, QueryEvent::Started(r)) => match r {
                Ok(_) => self.initialize_lsp_client(),
                Err(cause) => self.fail(Fault::Start, cause),
            },
            (Stage::Asking(asked, id), QueryEvent::Sent(r)) => match r {
                Ok(_) => {
                    self.stage = Stage::Waiting(asked, id);
                    QueryAction::Receive
                },
                Err(cause) => self.fail(Fault::Send, cause),
            },
            (Stage::Waiting(asked, id), QueryEvent::Message(r)) => match r {
                Ok(message) => match read_response(message, id) {
                    Response::Other => {
                        self.stage = Stage::Waiting(asked, id);
                        QueryAction::Receive
                    },
                    Response::Failed(text) => self.fail(Fault::Server, text),
                    Response::Result(result) => self.take_answer(asked, result),
                },
                Err(cause) => self.fail(Fault::Receive, cause),
            },
            (Stage::Telling(told), QueryEvent::Sent(r)) => match r {
                Ok(_) => self.after_notification(told),
                Err(cause) => self.fail(Fault::Send, cause),
            },
            (Stage::Sleeping, QueryEvent::Slept) => self.hover(),
            (Stage::Linking(request), QueryEvent::Linked(r)) => match r {
                Ok(link) => {
                    let output: CopyMarkdownOutput = finish_reference(&request, &link);
                    self.shutdown(QueryOutput::Markdown(output))
                },
                Err(cause) => self.fail(Fault::Permalink, cause),
            },
            (stage, _) => {
                self.stage = stage;
                QueryAction::Receive
            },
        }
    }
}

/// The message answers something else than the request that the query waits for.
pub open spec fn is_foreign(q: QueryView, event: QueryEventView) -> bool {
    match (q.stage, event) {
        (StageView::Waiting(_, id), QueryEventView::Message(Ok(message))) => response_to(
            message,
            id,
        ) is Other,
        _ => false,
    }
}

/// Messages that answer something else change nothing.
pub proof fn lemma_foreign_messages_change_nothing(q: QueryView, event: QueryEventView)
    requires
        is_foreign(q, event),
    ensures
        next_query(q, event) == (q, QueryActionView::Receive),
{
}

/// The event is of the kind that performing the action gives.
pub open spec fn query_answers(action: QueryActionView, event: QueryEventView) -> bool {
    match action {
        QueryActionView::Canonicalize(_) => event is Path,
        QueryActionView::ReadFile(_) => event is Text,
        QueryActionView::Start(_, _) => event is Started,
        QueryActionView::Send(_) => event is Sent,
        QueryActionView::Receive => event is Message,
        QueryActionView::Sleep(_) => event is Slept,
        QueryActionView::Permalink(_, _, _) => event is Linked,
        QueryActionView::Finished(_) => false,
        QueryActionView::Failed(_, _) => false,
    }
}

/// What the first action of a query gives is what the query waits for.
pub proof fn lemma_first_query_action_fits(
    goal: Goal,
    remote: Seq<char>,
    line: u32,
    character: u32,
    file: Seq<char>,
    server: Option<Seq<char>>,
    delay_ms: u64,
    timeout_ms: u64,
    limit: u32,
    root: Seq<char>,
    event: QueryEventView,
)
    ensures
        ({
            let q = new_query(
                goal,
                remote,
                line,
                character,
                file,
                server,
                delay_ms,
                timeout_ms,
                limit,
            );
            &&& query_awaits(q.stage, event) <==> query_answers(
                QueryActionView::Canonicalize(root),
                event,
            )
            &&& has_output(q)
        }),
{
}

/// The action that a query says is the one that its new stage waits for: what performing it gives
/// is what the query goes on with, and nothing else is.
pub proof fn lemma_query_actions_fit(q: QueryView, event: QueryEventView, next: QueryEventView)
    requires
        query_awaits(q.stage, event),
    ensures
        ({
            let (after, action) = next_query(q, event);
            query_awaits(after.stage, next) <==> query_answers(action, next)
        }),
{
}

/// How far the stage is from the end of the query, without repetitions.
pub open spec fn distance(stage: StageView) -> nat {
    match stage {
        StageView::Root => 17,
        StageView::File => 16,
        StageView::Reading => 15,
        StageView::Starting => 14,
        StageView::Asking(Asked::Initialize, _) => 13,
        StageView::Waiting(Asked::Initialize, _) => 12,
        StageView::Telling(Told::Initialized) => 11,
        StageView::Telling(Told::Open) => 10,
        StageView::Sleeping => 9,
        StageView::Asking(Asked::Hover, _) => 8,
        StageView::Waiting(Asked::Hover, _) => 7,
        StageView::Asking(Asked::Definition, _) => 6,
        StageView::Waiting(Asked::Definition, _) => 5,
        StageView::Linking(_) => 4,
        StageView::Asking(Asked::Shutdown, _) => 3,
        StageView::Waiting(Asked::Shutdown, _) => 2,
        StageView::Telling(Told::Exit) => 1,
        StageView::Done => 0,
    }
}

/// How many events other than foreign messages may still come.
pub open spec fn events_left(q: QueryView) -> int {
    (q.limit - q.failed) * 5 + distance(q.stage)
}

/// A query ends: every event but a foreign message brings it nearer to its end, and at the end it
/// says what it has found, or why it has failed.
pub proof fn lemma_query_ends(q: QueryView, event: QueryEventView)
    requires
        query_awaits(q.stage, event),
        q.failed <= q.limit,
        !is_foreign(q, event),
    ensures
        ({
            let (after, action) = next_query(q, event);
            &&& 0 <= events_left(after) < events_left(q)
            &&& after.failed <= after.limit
            &&& after.stage is Done <==> action is Finished || action is Failed
        }),
{
}

/// Each request has an id of its own: no later request has the id of an earlier one.
pub proof fn lemma_ids_are_not_used_twice(q: QueryView, event: QueryEventView)
    requires
        query_awaits(q.stage, event),
        q.next_id < i32::MAX,
        q.stage matches StageView::Asking(_, id) ==> id < q.next_id,
        q.stage matches StageView::Waiting(_, id) ==> id < q.next_id,
    ensures
        ({
            let after = next_query(q, event).0;
            &&& q.next_id <= after.next_id
            &&& after.stage matches StageView::Asking(_, id) ==> q.next_id <= id < after.next_id
            &&& after.stage matches StageView::Waiting(_, id) ==> id < after.next_id
        }),
{
}

/// A reference without a permanent link is what the last answers show.
pub proof fn lemma_reference_is_of_the_last_answers(q: QueryView, id: i32, message: JsonTree)
    requires
        q.stage == StageView::Waiting(Asked::Definition, id),
        q.goal == (Goal::Markdown { use_github_link: false }),
        response_to(message, id) is Result,
        !(q.hover is Null && response_to(message, id)->Result_0 is Null),
        is_found(
            symbol_for(language_of(q.path), q.hover, response_to(message, id)->Result_0),
        ),
    ensures
        next_query(q, QueryEventView::Message(Ok(message))).0.output == Some(
            OutputView::Markdown(
                markdown_reference(
                    symbol_for(language_of(q.path), q.hover, response_to(message, id)->Result_0),
                    None,
                ),
            ),
        ),
{
}

/// What a query is for is kept to its end, and so is what it has found out: the root from its lookup
/// on, the file from its lookup on, the text from its reading on, and the hover from its answer on.
pub proof fn lemma_queries_keep_what_they_know(q: QueryView, event: QueryEventView)
    requires
        query_awaits(q.stage, event),
    ensures
        ({
            let after = next_query(q, event).0;
            &&& after.goal == q.goal
            &&& after.remote == q.remote
            &&& after.line == q.line
            &&& after.character == q.character
            &&& after.file == q.file
            &&& after.server == q.server
            &&& after.delay_ms == q.delay_ms
            &&& after.timeout_ms == q.timeout_ms
            &&& after.limit == q.limit
            &&& after.root == match (q.stage, event) {
                (StageView::Root, QueryEventView::Path(Ok(root))) => root,
                _ => q.root,
            }
            &&& after.path == match (q.stage, event) {
                (StageView::File, QueryEventView::Path(Ok(path))) => path,
                _ => q.path,
            }
            &&& after.text == match (q.stage, event) {
                (StageView::Reading, QueryEventView::Text(Ok(text))) => text,
                _ => q.text,
            }
            &&& after.hover == match (q.stage, event) {
                (
                    StageView::Waiting(Asked::Hover, id),
                    QueryEventView::Message(Ok(message)),
                ) => match response_to(message, id) {
                    ResponseView::Result(result) => result,
                    _ => q.hover,
                },
                _ => q.hover,
            }
        }),
{
}

/// A query is for the place that was asked for, counted from 0; the 0 that nobody should give stays
/// 0. It starts with the lookup of the root, has found out nothing, and numbers its requests from 1.
pub proof fn lemma_queries_are_for_their_places(
    goal: Goal,
    remote: Seq<char>,
    line: u32,
    character: u32,
    file: Seq<char>,
    server: Option<Seq<char>>,
    delay_ms: u64,
    timeout_ms: u64,
    limit: u32,
)
    ensures
        ({
            let q = new_query(
                goal,
                remote,
                line,
                character,
                file,
                server,
                delay_ms,
                timeout_ms,
                limit,
            );
            &&& line > 0 ==> q.line + 1 == line
            &&& line == 0 ==> q.line == 0
            &&& character > 0 ==> q.character + 1 == character
            &&& character == 0 ==> q.character == 0
            &&& q.goal == goal
            &&& q.remote == remote
            &&& q.file == file
            &&& q.server == server
            &&& q.delay_ms == delay_ms
            &&& q.timeout_ms == timeout_ms
            &&& q.limit == limit
            &&& q.failed == 0
            &&& q.next_id == 1
            &&& q.output is None
            &&& q.stage is Root
        }),
        HOVER_DELAY_MS == 500,
        DEFAULT_LSP_TIMEOUT_MS == 30000,
{
}

/// The message of a request about the place of a query.
pub open spec fn place_message(q: QueryView, method: Seq<char>) -> Seq<char> {
    framed(
        json_text(
            request_tree(
                q.next_id as int,
                method,
                position_tree("file://"@ + q.path, q.line, q.character),
            ),
        ),
    )
}

/// The hover is asked for at the place of the query, in its file.
pub proof fn lemma_hover_is_asked_for_at_the_place(q: QueryView)
    requires
        q.stage is Sleeping,
        uri_problem("file://"@ + q.path) is None,
    ensures
        ({
            let (after, action) = next_query(q, QueryEventView::Slept);
            &&& action == QueryActionView::Send(place_message(q, "textDocument/hover"@))
            &&& after.stage == StageView::Asking(Asked::Hover, q.next_id)
            &&& after.next_id == (q.next_id + 1) as i32
        }),
{
}

/// The definition is asked for at the place of the query, in its file: its parameters are those of
/// the hover request that was answered.
pub proof fn lemma_definition_is_asked_for_at_the_place(
    q: QueryView,
    id: i32,
    message: JsonTree,
    result: JsonTree,
)
    requires
        q.stage == StageView::Waiting(Asked::Hover, id),
        response_to(message, id) == ResponseView::Result(result),
        uri_problem("file://"@ + q.path) is None,
    ensures
        ({
            let (after, action) = next_query(q, QueryEventView::Message(Ok(message)));
            &&& action == QueryActionView::Send(
                framed(
                    json_text(
                        request_tree(
                            q.next_id as int,
                            "textDocument/definition"@,
                            position_tree("file://"@ + q.path, q.line, q.character),
                        ),
                    ),
                ),
            )
            &&& action == QueryActionView::Send(place_message(q, "textDocument/definition"@))
            &&& after.stage == StageView::Asking(Asked::Definition, q.next_id)
            &&& after.next_id == (q.next_id + 1) as i32
            &&& after.hover == result
        }),
{
}

/// The query finds the file below the root, reads it, and starts the server that was asked for, or
/// the one for the file.
pub proof fn lemma_queries_prepare(q: QueryView, root: Seq<char>, path: Seq<char>, text: Seq<char>)
    ensures
        q.stage is Root ==> ({
            let (after, action) = next_query(q, QueryEventView::Path(Ok(root)));
            &&& after.stage is File
            &&& action == QueryActionView::Canonicalize(joined_path(root, q.file))
        }),
        q.stage is File ==> ({
            let (after, action) = next_query(q, QueryEventView::Path(Ok(path)));
            &&& after.stage is Reading
            &&& action == QueryActionView::ReadFile(path)
        }),
        q.stage is Reading ==> ({
            let (after, action) = next_query(q, QueryEventView::Text(Ok(text)));
            let server = match q.server {
                Some(server) => server,
                None => server_of(q.path),
            };
            &&& after.stage is Starting
            &&& action matches QueryActionView::Start(arguments, timeout_ms)
            &&& timeout_ms == q.timeout_ms
            &&& arguments.len() >= 3
            &&& arguments[0] == "client"@
            &&& arguments[1] == "--server-path"@
            &&& arguments[2] == server
        }),
{
}

/// The session with a server: it is opened for the workspace at the root, which is named like its
/// directory, then the document is announced with its language and its text, and the server is left
/// alone with it for a while.
pub proof fn lemma_sessions_are_opened(q: QueryView, id: i32, message: JsonTree)
    ensures
        q.stage is Starting && uri_problem("file://"@ + q.root) is None ==> ({
            let (after, action) = next_query(q, QueryEventView::Started(Ok(())));
            &&& action == QueryActionView::Send(
                framed(
                    json_text(
                        request_tree(
                            q.next_id as int,
                            "initialize"@,
                            initialize_tree(
                                None,
                                "file://"@ + q.root,
                                match file_name_of(q.root) {
                                    Some(name) => name,
                                    None => "workspace"@,
                                },
                            ),
                        ),
                    ),
                ),
            )
            &&& after.stage == StageView::Asking(Asked::Initialize, q.next_id)
        }),
        q.stage == StageView::Waiting(Asked::Initialize, id) && response_to(message, id) is Result
            ==> ({
            let (after, action) = next_query(q, QueryEventView::Message(Ok(message)));
            &&& action == QueryActionView::Send(
                framed(
                    json_text(notification_tree("initialized"@, JsonTree::Object(seq![]))),
                ),
            )
            &&& after.stage == StageView::Telling(Told::Initialized)
        }),
        q.stage == StageView::Telling(Told::Initialized) && uri_problem("file://"@ + q.path) is None
            ==> ({
            let (after, action) = next_query(q, QueryEventView::Sent(Ok(())));
            &&& action == QueryActionView::Send(
                framed(
                    json_text(
                        notification_tree(
                            "textDocument/didOpen"@,
                            open_tree("file://"@ + q.path, language_of(q.path), 1, q.text),
                        ),
                    ),
                ),
            )
            &&& after.stage == StageView::Telling(Told::Open)
        }),
        q.stage == StageView::Telling(Told::Open) ==> ({
            let (after, action) = next_query(q, QueryEventView::Sent(Ok(())));
            &&& action == QueryActionView::Sleep(q.delay_ms as nat)
            &&& after.stage is Sleeping
        }),
{
}

/// Every request that was sent is waited for under its own id.
pub proof fn lemma_requests_are_waited_for(q: QueryView, asked: Asked, id: i32)
    requires
        q.stage == StageView::Asking(asked, id),
    ensures
        next_query(q, QueryEventView::Sent(Ok(()))) == (
            QueryView { stage: StageView::Waiting(asked, id), ..q },
            QueryActionView::Receive,
        ),
{
}

/// A result is kept while the session is ended, by a request and a notification without parameters,
/// and then it is what the query has found.
pub proof fn lemma_sessions_are_ended(q: QueryView, id: i32, message: JsonTree)
    ensures
        q.stage == StageView::Waiting(Asked::Shutdown, id) && response_to(message, id) is Result
            ==> ({
            let (after, action) = next_query(q, QueryEventView::Message(Ok(message)));
            &&& action == QueryActionView::Send(
                framed(json_text(notification_tree("exit"@, JsonTree::Null))),
            )
            &&& after.stage == StageView::Telling(Told::Exit)
            &&& after.output == q.output
        }),
        q.stage == StageView::Telling(Told::Exit) && q.output is Some ==> ({
            let (after, action) = next_query(q, QueryEventView::Sent(Ok(())));
            &&& after.stage is Done
            &&& action == QueryActionView::Finished(q.output->0)
        }),
        q.stage is Asking ==> next_query(q, QueryEventView::Sent(Ok(()))).0.output == q.output,
{
}

/// A query that has a result ends the session with it.
pub open spec fn ends_with(
    q: QueryView,
    after: QueryView,
    action: QueryActionView,
    output: OutputView,
) -> bool {
    &&& after.output == Some(output)
    &&& after.stage == StageView::Asking(Asked::Shutdown, q.next_id)
    &&& action == QueryActionView::Send(
        framed(json_text(request_tree(q.next_id as int, "shutdown"@, JsonTree::Null))),
    )
}

/// A query for a hover ends with the symbol and the text that the two answers show, whatever they
/// are.
pub proof fn lemma_hovers_end_with_the_answers(
    q: QueryView,
    id: i32,
    message: JsonTree,
    definition: JsonTree,
)
    requires
        q.goal is Hover,
        q.stage == StageView::Waiting(Asked::Definition, id),
        response_to(message, id) == ResponseView::Result(definition),
    ensures
        ({
            let (after, action) = next_query(q, QueryEventView::Message(Ok(message)));
            ends_with(
                q,
                after,
                action,
                OutputView::Hover(
                    symbol_for(language_of(q.path), q.hover, definition),
                    text_for(language_of(q.path), q.hover),
                ),
            )
        }),
{
}

/// A query for a reference: where both answers are empty it asks again, as often as it may, after
/// a time that doubles from one attempt to the next up to a bound. Where they show a symbol, it is
/// written, or the permanent link for it is asked for; and where they show none, the query fails.
pub proof fn lemma_references_are_written(
    q: QueryView,
    id: i32,
    message: JsonTree,
    definition: JsonTree,
    use_github_link: bool,
)
    requires
        q.goal == (Goal::Markdown { use_github_link }),
        q.stage == StageView::Waiting(Asked::Definition, id),
        response_to(message, id) == ResponseView::Result(definition),
    ensures
        ({
            let (after, action) = next_query(q, QueryEventView::Message(Ok(message)));
            let symbol = symbol_for(language_of(q.path), q.hover, definition);
            if q.hover is Null && definition is Null && q.failed < q.limit {
                &&& action == QueryActionView::Sleep(retry_delay(q.failed))
                &&& after.stage is Sleeping
                &&& after.failed == q.failed + 1
            } else if symbol.qualified_name is None && symbol.definition_uri is None {
                &&& action == QueryActionView::Failed(
                    Fault::Nothing,
                    "No symbol found at cursor position"@,
                )
                &&& after.stage is Done
            } else if use_github_link && symbol.definition_uri is Some {
                &&& action == QueryActionView::Permalink(
                    past_prefix(symbol.definition_uri->0, "file://"@),
                    match symbol.definition_line {
                        Some(line) => line,
                        None => 1,
                    },
                    q.remote,
                )
                &&& after.stage matches StageView::Linking(request)
                &&& request.symbol == symbol
            } else {
                ends_with(q, after, action, OutputView::Markdown(markdown_reference(symbol, None)))
            }
        }),
        !(q.hover is Null && definition is Null && q.failed < q.limit) ==> next_query(
            q,
            QueryEventView::Message(Ok(message)),
        ).0.failed == q.failed,
{
}

/// A permanent link that has come is what the reference leads to.
pub proof fn lemma_references_lead_to_their_permanent_links(
    q: QueryView,
    request: PermalinkView,
    link: GitHubLinkView,
)
    requires
        q.stage == StageView::Linking(request),
    ensures
        ({
            let (after, action) = next_query(q, QueryEventView::Linked(Ok(link)));
            ends_with(
                q,
                after,
                action,
                OutputView::Markdown(markdown_reference(request.symbol, Some(link.url))),
            )
        }),
{
}

/// Whatever fails ends the query with its cause: what is looked up, read, started, sent, received or
/// linked, and what the server reports as an error.
pub proof fn lemma_failures_end_the_query(
    q: QueryView,
    event: QueryEventView,
    fault: Fault,
    cause: Seq<char>,
)
    requires
        query_awaits(q.stage, event),
        match event {
            QueryEventView::Path(Err(why)) => fault == Fault::Path && why == cause,
            QueryEventView::Text(Err(why)) => fault == Fault::Read && why == cause,
            QueryEventView::Started(Err(why)) => fault == Fault::Start && why == cause,
            QueryEventView::Sent(Err(why)) => fault == Fault::Send && why == cause,
            QueryEventView::Message(Err(why)) => fault == Fault::Receive && why == cause,
            QueryEventView::Linked(Err(why)) => fault == Fault::Permalink && why == cause,
            QueryEventView::Message(Ok(message)) => fault == Fault::Server && (q.stage
                matches StageView::Waiting(_, id) && response_to(message, id)
                == ResponseView::Failed(cause)),
            _ => false,
        },
    ensures
        next_query(q, event) == (
            QueryView { stage: StageView::Done, ..q },
            QueryActionView::Failed(fault, cause),
        ),
{
}

/// A path that makes no URI ends the query, wherever its URI is needed.
pub proof fn lemma_paths_that_make_no_uri_end_the_query(
    q: QueryView,
    event: QueryEventView,
    path: Seq<char>,
    cause: Seq<char>,
)
    requires
        match (q.stage, event) {
            (StageView::Starting, QueryEventView::Started(Ok(_))) => path == q.root,
            (StageView::Telling(Told::Initialized), QueryEventView::Sent(Ok(_))) => path == q.path,
            (StageView::Sleeping, QueryEventView::Slept) => path == q.path,
            (
                StageView::Waiting(Asked::Hover, id),
                QueryEventView::Message(Ok(message)),
            ) => path == q.path && response_to(message, id) is Result,
            _ => false,
        },
        uri_problem("file://"@ + path) == Some(cause),
    ensures
        next_query(q, event).0.stage is Done,
        next_query(q, event).1 == QueryActionView::Failed(Fault::Uri, cause),
{
}

/// What a query is told are the texts, the messages and the links in the events.
pub proof fn lemma_queries_are_told_what_events_hold(
    text: String,
    cause: String,
    message: Json,
    link: GitHubLink,
)
    ensures
        QueryEvent::Path(Ok(text))@ == QueryEventView::Path(Ok(text@)),
        QueryEvent::Path(Err(cause))@ == QueryEventView::Path(Err(cause@)),
        QueryEvent::Text(Ok(text))@ == QueryEventView::Text(Ok(text@)),
        QueryEvent::Text(Err(cause))@ == QueryEventView::Text(Err(cause@)),
        QueryEvent::Started(Ok(()))@ == QueryEventView::Started(Ok(())),
        QueryEvent::Started(Err(cause))@ == QueryEventView::Started(Err(cause@)),
        QueryEvent::Sent(Ok(()))@ == QueryEventView::Sent(Ok(())),
        QueryEvent::Sent(Err(cause))@ == QueryEventView::Sent(Err(cause@)),
        QueryEvent::Message(Ok(message))@ == QueryEventView::Message(Ok(message@)),
        QueryEvent::Message(Err(cause))@ == QueryEventView::Message(Err(cause@)),
        QueryEvent::Linked(Err(cause))@ == QueryEventView::Linked(Err(cause@)),
        QueryEvent::Linked(Ok(link))@ matches QueryEventView::Linked(Ok(told)) && told.url
            == link.url@,
{
}

/// What a query says are the texts and the numbers in its actions, and what it has found is what the
/// output holds.
pub proof fn lemma_queries_say_what_actions_hold(
    text: String,
    remote: String,
    line: u32,
    ms: u64,
    arguments: Vec<String>,
    hover: HoverOutput,
    markdown: CopyMarkdownOutput,
    error: QueryError,
)
    ensures
        QueryAction::Canonicalize(text)@ == QueryActionView::Canonicalize(text@),
        QueryAction::ReadFile(text)@ == QueryActionView::ReadFile(text@),
        (QueryAction::Start { arguments, timeout_ms: ms })@ == QueryActionView::Start(
            string_views(arguments@),
            ms,
        ),
        QueryAction::Send(text)@ == QueryActionView::Send(text@),
        QueryAction::Sleep(ms)@ == QueryActionView::Sleep(ms as nat),
        (QueryAction::Permalink { path: text, line, remote })@ == QueryActionView::Permalink(
            text@,
            line,
            remote@,
        ),
        QueryAction::Finished(QueryOutput::Hover(hover))@ == QueryActionView::Finished(
            OutputView::Hover(hover.symbol_info@, opt_view(hover.hover_text)),
        ),
        QueryAction::Finished(QueryOutput::Markdown(markdown))@ == QueryActionView::Finished(
            OutputView::Markdown(markdown.markdown@),
        ),
        QueryAction::Failed(error)@ == QueryActionView::Failed(error.fault, error.cause@),
{
}

} // verus!
