//! Messages to language servers, and conversations with them.

use jump::app::query::{copy_markdown, run, Fault, Query, QueryAction, QueryEvent, QueryOutput};
use jump::app::requests::{CopyMarkdownRequest, HoverRequest};
use jump::git::{GitHubLink, LineRange};
use jump::json::{read_json, Json};
use jump::lsp::client::{
    client_arguments, encode_message, frame_message, notification_message, read_header_line,
    read_response, request_message, server_needs_stdio_flag, HeaderStep, RequestCounter, Response,
    DEFAULT_LSP_TIMEOUT_MS,
};
use jump::lsp::params::{
    cursor_position, definition_params, hover_params, initialize_params, open_params, Position,
};

fn json(text: &str) -> Json {
    read_json(text).unwrap()
}

#[test]
fn some_servers_need_a_flag() {
    assert!(server_needs_stdio_flag("typescript-language-server"));
    assert!(server_needs_stdio_flag("/usr/bin/pyright-langserver"));
    assert!(server_needs_stdio_flag("bin/pyright"));
    assert!(!server_needs_stdio_flag("rust-analyzer"));
    assert!(!server_needs_stdio_flag("/pyright/x"));
    assert_eq!(
        client_arguments("gopls"),
        vec!["client", "--server-path", "gopls"]
    );
    assert_eq!(
        client_arguments("pyright"),
        vec!["client", "--server-path", "pyright", "--", "--stdio"]
    );
    assert_eq!(DEFAULT_LSP_TIMEOUT_MS, 30000);
}

#[test]
fn messages_are_framed_by_their_bytes() {
    assert_eq!(frame_message("{}"), "Content-Length: 2\r\n\r\n{}");
    assert_eq!(frame_message("☃"), "Content-Length: 3\r\n\r\n☃");
    assert_eq!(frame_message(""), "Content-Length: 0\r\n\r\n");
    assert_eq!(
        encode_message(&json("{\"b\":1,\"a\":2}")),
        "Content-Length: 13\r\n\r\n{\"a\":2,\"b\":1}"
    );
}

#[test]
fn headers_are_read() {
    assert!(matches!(
        read_header_line(0, "Content-Length: 42\r\n"),
        HeaderStep::More(42)
    ));
    assert!(matches!(
        read_header_line(42, "Content-Type: x\r\n"),
        HeaderStep::More(42)
    ));
    assert!(matches!(read_header_line(42, "\r\n"), HeaderStep::End(42)));
    assert!(matches!(read_header_line(7, ""), HeaderStep::End(7)));
    assert!(matches!(
        read_header_line(0, "Content-Length: x\r\n"),
        HeaderStep::Malformed
    ));
    assert!(matches!(
        read_header_line(0, "content-length: 3\r\n"),
        HeaderStep::More(0)
    ));
}

#[test]
fn framed_messages_are_read_back() {
    let body = "{\"text\":\"snö\"}";
    let framed = frame_message(body);
    let mut rest = framed.as_str();
    let mut known: usize = 0;
    loop {
        let (line, more) = rest.split_at(rest.find('\n').unwrap() + 1);
        rest = more;
        match read_header_line(known, line) {
            HeaderStep::More(n) => known = n,
            HeaderStep::End(n) => {
                assert_eq!(&rest.as_bytes()[..n], body.as_bytes());
                assert_eq!(rest.len(), n);
                break;
            }
            HeaderStep::Malformed => panic!("the header is well formed"),
        }
    }
}

#[test]
fn requests_and_notifications_are_written() {
    assert_eq!(
        request_message(3, "m", json("[1]")).to_text(),
        "{\"id\":3,\"jsonrpc\":\"2.0\",\"method\":\"m\",\"params\":[1]}"
    );
    assert_eq!(
        notification_message("exit", Json::Null).to_text(),
        "{\"jsonrpc\":\"2.0\",\"method\":\"exit\",\"params\":null}"
    );
    let mut counter = RequestCounter::new();
    assert!(counter.can_request());
    assert_eq!(counter.request("a", Json::Null).0, 1);
    assert_eq!(counter.request("b", Json::Null).0, 2);
}

#[test]
fn answers_are_told_apart() {
    match read_response(json("{\"id\":4,\"result\":{\"x\":1}}"), 4) {
        Response::Result(result) => assert_eq!(result.to_text(), "{\"x\":1}"),
        _ => panic!("this is the answer"),
    }
    match read_response(json("{\"id\":4}"), 4) {
        Response::Result(result) => assert!(result.is_null()),
        _ => panic!("this is the answer"),
    }
    match read_response(json("{\"id\":4,\"error\":{\"code\":1},\"result\":2}"), 4) {
        Response::Failed(text) => assert_eq!(text, "LSP error: {\"code\":1}"),
        _ => panic!("this is an error"),
    }
    for other in [
        "{\"id\":5,\"result\":1}",
        "{\"id\":\"4\",\"result\":1}",
        "{\"method\":\"window/logMessage\"}",
        "{\"result\":1}",
        "[4]",
    ] {
        assert!(matches!(read_response(json(other), 4), Response::Other));
    }
    assert!(matches!(
        read_response(notification_message("m", Json::Null), 1),
        Response::Other
    ));
}

#[test]
fn places_are_counted_from_zero() {
    let position = cursor_position(1, 0);
    assert_eq!((position.line, position.character), (0, 0));
    let position = cursor_position(10, 5);
    assert_eq!((position.line, position.character), (9, 4));
}

#[test]
fn parameters_are_written() {
    let position = Position { line: 9, character: 4 };
    let place = "{\"position\":{\"character\":4,\"line\":9},\"textDocument\":{\"uri\":\"file:///a.rs\"}}";
    assert_eq!(
        hover_params("file:///a.rs", &position).unwrap_or(Json::Null).to_text(),
        place
    );
    assert_eq!(
        definition_params("file:///a.rs", &position)
            .unwrap_or(Json::Null)
            .to_text(),
        place
    );
    assert_eq!(
        open_params("file:///a.rs", "rust", "fn main() {}")
            .unwrap_or(Json::Null)
            .to_text(),
        "{\"textDocument\":{\"languageId\":\"rust\",\"text\":\"fn main() {}\",\"uri\":\"file:///a.rs\",\"version\":1}}"
    );
    assert_eq!(
        initialize_params("file:///w", "w").unwrap_or(Json::Null).to_text(),
        "{\"capabilities\":{},\"processId\":null,\"rootUri\":null,\"workspaceFolders\":[{\"name\":\"w\",\"uri\":\"file:///w\"}]}"
    );
}

#[test]
fn texts_that_are_no_uris_are_refused() {
    let position = Position { line: 0, character: 0 };
    for (text, cause) in [
        ("file:///a b", "unexpected character at index 9"),
        ("file:///ü", "unexpected character at index 8"),
        ("file:///%zz", "invalid percent-encoded octet at index 8"),
        ("<", "unexpected character at index 0"),
    ] {
        for refused in [
            hover_params(text, &position),
            definition_params(text, &position),
            open_params(text, "l", "t"),
            initialize_params(text, "n"),
        ] {
            match refused {
                Err(error) => {
                    assert_eq!(error.text, text);
                    assert_eq!(error.cause, cause);
                }
                Ok(_) => panic!("this is no URI"),
            }
        }
    }
}

fn markdown_request(github: bool, retries: u32) -> CopyMarkdownRequest {
    CopyMarkdownRequest {
        root: "w".to_string(),
        file: "a.rs".to_string(),
        line: 10,
        character: 5,
        server_path: None,
        use_github_link: github,
        remote: "origin".to_string(),
        lsp_init_delay_ms: 300,
        lsp_max_retries: retries,
        lsp_timeout_ms: 1000,
    }
}

fn sent(action: QueryAction) -> Json {
    match action {
        QueryAction::Send(text) => {
            let (header, body) = text.split_once("\r\n\r\n").unwrap();
            assert_eq!(header, format!("Content-Length: {}", body.len()));
            json(body)
        }
        _ => panic!("a message is to be sent"),
    }
}

fn method(message: &Json) -> String {
    message.get("method").unwrap().as_str().unwrap().to_string()
}

fn reply(query: &mut Query, message: &Json, result: &str) -> QueryAction {
    let id = message.get("id").unwrap().as_i64().unwrap();
    assert!(query.can_continue());
    assert!(matches!(
        query.step(QueryEvent::Sent(Ok(()))),
        QueryAction::Receive
    ));
    let foreign = json("{\"method\":\"window/logMessage\",\"params\":{}}");
    assert!(matches!(
        query.step(QueryEvent::Message(Ok(foreign))),
        QueryAction::Receive
    ));
    let other = json(&format!("{{\"id\":{},\"result\":0}}", id + 1));
    assert!(matches!(
        query.step(QueryEvent::Message(Ok(other))),
        QueryAction::Receive
    ));
    query.step(QueryEvent::Message(Ok(json(&format!(
        "{{\"id\":{},\"result\":{}}}",
        id, result
    )))))
}

fn up_to_the_hover(query: &mut Query, first: QueryAction, server: &str, delay: u64) -> Json {
    assert!(matches!(first, QueryAction::Canonicalize(path) if path == "w"));
    let action = query.step(QueryEvent::Path(Ok("/home/w".to_string())));
    assert!(matches!(action, QueryAction::Canonicalize(path) if path == "/home/w/a.rs"));
    let action = query.step(QueryEvent::Path(Ok("/home/w/a.rs".to_string())));
    assert!(matches!(action, QueryAction::ReadFile(path) if path == "/home/w/a.rs"));
    match query.step(QueryEvent::Text(Ok("fn f() {}".to_string()))) {
        QueryAction::Start { arguments, .. } => {
            assert_eq!(arguments, vec!["client", "--server-path", server])
        }
        _ => panic!("the server is to be started"),
    }
    let initialize = sent(query.step(QueryEvent::Started(Ok(()))));
    assert_eq!(method(&initialize), "initialize");
    assert_eq!(initialize.get("id").unwrap().as_i64(), Some(1));
    let initialized = sent(reply(query, &initialize, "{}"));
    assert_eq!(method(&initialized), "initialized");
    assert_eq!(initialized.get("params").unwrap().to_text(), "{}");
    assert!(initialized.get("id").is_none());
    let open = sent(query.step(QueryEvent::Sent(Ok(()))));
    assert_eq!(method(&open), "textDocument/didOpen");
    assert!(matches!(
        query.step(QueryEvent::Sent(Ok(()))),
        QueryAction::Sleep(ms) if ms == delay
    ));
    let hover = sent(query.step(QueryEvent::Slept));
    assert_eq!(method(&hover), "textDocument/hover");
    assert_eq!(
        hover.get("params").unwrap().to_text(),
        "{\"position\":{\"character\":4,\"line\":9},\"textDocument\":{\"uri\":\"file:///home/w/a.rs\"}}"
    );
    hover
}

fn to_the_end(query: &mut Query, shutdown: QueryAction) -> QueryOutput {
    let shutdown = sent(shutdown);
    assert_eq!(method(&shutdown), "shutdown");
    let exit = sent(reply(query, &shutdown, "null"));
    assert_eq!(method(&exit), "exit");
    match query.step(QueryEvent::Sent(Ok(()))) {
        QueryAction::Finished(output) => output,
        _ => panic!("the query has ended"),
    }
}

const HOVER: &str = "{\"contents\":{\"kind\":\"plaintext\",\"value\":\"crate::a\\npub fn f()\"}}";
const DEFINITION: &str = "[{\"uri\":\"file:///home/w/a.rs\",\"range\":{\"start\":{\"line\":0}}}]";

#[test]
fn references_are_asked_for() {
    let (mut query, first) = copy_markdown(markdown_request(false, 5));
    let hover = up_to_the_hover(&mut query, first, "rust-analyzer", 300);
    let definition = sent(reply(&mut query, &hover, HOVER));
    assert_eq!(method(&definition), "textDocument/definition");
    let shutdown = reply(&mut query, &definition, DEFINITION);
    match to_the_end(&mut query, shutdown) {
        QueryOutput::Markdown(output) => assert_eq!(
            output.markdown,
            "[fn crate::a::f](file:///home/w/a.rs#L1)"
        ),
        QueryOutput::Hover(_) => panic!("a reference was asked for"),
    }
}

#[test]
fn empty_answers_are_repeated() {
    let (mut query, first) = copy_markdown(markdown_request(false, 2));
    let mut hover = up_to_the_hover(&mut query, first, "rust-analyzer", 300);
    for delay in [200, 400] {
        let definition = sent(reply(&mut query, &hover, "null"));
        assert!(matches!(
            reply(&mut query, &definition, "null"),
            QueryAction::Sleep(ms) if ms == delay
        ));
        hover = sent(query.step(QueryEvent::Slept));
        assert_eq!(method(&hover), "textDocument/hover");
    }
    assert_eq!(hover.get("id").unwrap().as_i64(), Some(6));
    let definition = sent(reply(&mut query, &hover, "null"));
    match reply(&mut query, &definition, "null") {
        QueryAction::Failed(error) => {
            assert!(matches!(error.fault, Fault::Nothing));
            assert_eq!(error.cause, "No symbol found at cursor position");
        }
        _ => panic!("there is nothing"),
    }
}

#[test]
fn permanent_links_are_asked_for() {
    let (mut query, first) = copy_markdown(markdown_request(true, 0));
    let hover = up_to_the_hover(&mut query, first, "rust-analyzer", 300);
    let definition = sent(reply(&mut query, &hover, HOVER));
    match reply(&mut query, &definition, DEFINITION) {
        QueryAction::Permalink { path, line, remote } => {
            assert_eq!(path, "/home/w/a.rs");
            assert_eq!(line, 1);
            assert_eq!(remote, "origin");
        }
        _ => panic!("a link is needed"),
    }
    let link = GitHubLink {
        url: "https://github.com/o/r/blob/c/a.rs#L1".to_string(),
        markdown: String::new(),
        relative_path: "a.rs".to_string(),
        revision: "c".to_string(),
        lines: LineRange { start: 1, end: None },
        provider: "github".to_string(),
    };
    let shutdown = query.step(QueryEvent::Linked(Ok(link)));
    match to_the_end(&mut query, shutdown) {
        QueryOutput::Markdown(output) => assert_eq!(
            output.markdown,
            "[fn crate::a::f](https://github.com/o/r/blob/c/a.rs#L1)"
        ),
        QueryOutput::Hover(_) => panic!("a reference was asked for"),
    }
}

#[test]
fn hovers_are_asked_for_once() {
    let (mut query, first) = run(HoverRequest {
        root: "w".to_string(),
        file: "a.rs".to_string(),
        line: 10,
        character: 5,
        server_path: "mine".to_string(),
    });
    let hover = up_to_the_hover(&mut query, first, "mine", 500);
    let definition = sent(reply(&mut query, &hover, "null"));
    let shutdown = reply(&mut query, &definition, "null");
    match to_the_end(&mut query, shutdown) {
        QueryOutput::Hover(output) => {
            assert_eq!(output.symbol_info.qualified_name, None);
            assert_eq!(output.hover_text, None);
        }
        QueryOutput::Markdown(_) => panic!("a hover was asked for"),
    }
}

fn fault(action: QueryAction) -> (Fault, String) {
    match action {
        QueryAction::Failed(error) => (error.fault, error.cause),
        _ => panic!("the query has failed"),
    }
}

#[test]
fn every_failure_ends_a_query() {
    let no = || Err("no".to_string());
    let (mut query, _) = copy_markdown(markdown_request(false, 0));
    assert!(matches!(fault(query.step(QueryEvent::Path(no()))), (Fault::Path, c) if c == "no"));
    let (mut query, _) = copy_markdown(markdown_request(false, 0));
    query.step(QueryEvent::Path(Ok("/w".to_string())));
    assert!(matches!(fault(query.step(QueryEvent::Path(no()))), (Fault::Path, c) if c == "no"));
    let (mut query, _) = copy_markdown(markdown_request(false, 0));
    query.step(QueryEvent::Path(Ok("/w".to_string())));
    query.step(QueryEvent::Path(Ok("/w/a.rs".to_string())));
    assert!(matches!(fault(query.step(QueryEvent::Text(no()))), (Fault::Read, c) if c == "no"));
    let (mut query, _) = copy_markdown(markdown_request(false, 0));
    query.step(QueryEvent::Path(Ok("/w".to_string())));
    query.step(QueryEvent::Path(Ok("/w/a.rs".to_string())));
    query.step(QueryEvent::Text(Ok(String::new())));
    assert!(matches!(
        fault(query.step(QueryEvent::Started(Err("no".to_string())))),
        (Fault::Start, c) if c == "no"
    ));
    let (mut query, _) = copy_markdown(markdown_request(false, 0));
    query.step(QueryEvent::Path(Ok("/with space".to_string())));
    query.step(QueryEvent::Path(Ok("/with space/a.rs".to_string())));
    query.step(QueryEvent::Text(Ok(String::new())));
    assert!(matches!(
        fault(query.step(QueryEvent::Started(Ok(())))),
        (Fault::Uri, c) if c == "unexpected character at index 12"
    ));
    let (mut query, first) = copy_markdown(markdown_request(false, 0));
    up_to_the_hover(&mut query, first, "rust-analyzer", 300);
    assert!(matches!(
        fault(query.step(QueryEvent::Sent(Err("no".to_string())))),
        (Fault::Send, c) if c == "no"
    ));
    let (mut query, first) = copy_markdown(markdown_request(false, 0));
    up_to_the_hover(&mut query, first, "rust-analyzer", 300);
    query.step(QueryEvent::Sent(Ok(())));
    assert!(matches!(
        fault(query.step(QueryEvent::Message(Err("no".to_string())))),
        (Fault::Receive, c) if c == "no"
    ));
    let (mut query, first) = copy_markdown(markdown_request(false, 0));
    up_to_the_hover(&mut query, first, "rust-analyzer", 300);
    query.step(QueryEvent::Sent(Ok(())));
    assert!(matches!(
        fault(query.step(QueryEvent::Message(Ok(json("{\"id\":2,\"error\":\"bad\"}"))))),
        (Fault::Server, c) if c == "LSP error: \"bad\""
    ));
    let (mut query, first) = copy_markdown(markdown_request(true, 0));
    let hover = up_to_the_hover(&mut query, first, "rust-analyzer", 300);
    let definition = sent(reply(&mut query, &hover, HOVER));
    reply(&mut query, &definition, DEFINITION);
    assert!(matches!(
        fault(query.step(QueryEvent::Linked(Err("no".to_string())))),
        (Fault::Permalink, c) if c == "no"
    ));
}
