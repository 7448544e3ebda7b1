//! References to symbols in Markdown.

use jump::app::reference::{
    begin_reference, choose_server, detect_lsp_server, finish_reference, format_answers,
    format_symbol, hover_output, plan_document, read_json_input, requested_file, Fetch, FetchStep,
    JsonSource, Reference, SymbolError,
};
use jump::app::requests::{CopyMarkdownRequest, FormatSymbolRequest};
use jump::cli::{CopyMarkdownArgs, FormatSymbolArgs};
use jump::git::{GitHubLink, LineRange};
use jump::json::{read_json, Json};
use jump::symbol::formatter::{LinkType, MarkdownFormatter, ReferenceFormatter};
use jump::symbol::types::SymbolInfo;

fn symbol(name: Option<&str>, kind: Option<&str>, uri: Option<&str>, line: Option<u32>) -> SymbolInfo {
    SymbolInfo {
        qualified_name: name.map(String::from),
        kind: kind.map(String::from),
        definition_uri: uri.map(String::from),
        definition_line: line,
    }
}

fn github_link(url: &str) -> GitHubLink {
    GitHubLink {
        url: url.to_string(),
        markdown: String::new(),
        relative_path: String::new(),
        revision: String::new(),
        lines: LineRange { start: 1, end: None },
        provider: "github".to_string(),
    }
}

#[test]
fn test_format_markdown_with_github_link() {
    let symbol = SymbolInfo {
        qualified_name: Some("std::path::PathBuf".to_string()),
        kind: Some("struct".to_string()),
        definition_uri: Some("file:///path/to/file.rs".to_string()),
        definition_line: Some(42),
    };

    let github_link = GitHubLink {
        url: "https://github.com/rust-lang/rust/blob/abc123/library/std/src/path.rs#L42"
            .to_string(),
        markdown: "[library/std/src/path.rs#L42](https://github.com/rust-lang/rust/blob/abc123/library/std/src/path.rs#L42)".to_string(),
        relative_path: "library/std/src/path.rs".to_string(),
        revision: "abc123".to_string(),
        lines: LineRange {
            start: 42,
            end: None,
        },
        provider: "github".to_string(),
    };

    let formatter = MarkdownFormatter;
    let result = formatter
        .format_markdown(&symbol, Some(&github_link))
        .unwrap();

    assert_eq!(
        result,
        "[struct std::path::PathBuf](https://github.com/rust-lang/rust/blob/abc123/library/std/src/path.rs#L42)"
    );
}

#[test]
fn test_format_markdown_with_local_link() {
    let symbol = SymbolInfo {
        qualified_name: Some("crate::symbol::SymbolInfo".to_string()),
        kind: Some("struct".to_string()),
        definition_uri: Some("file:///home/user/project/src/symbol/types.rs".to_string()),
        definition_line: Some(4),
    };

    let formatter = MarkdownFormatter;
    let result = formatter.format_markdown(&symbol, None).unwrap();

    assert_eq!(
        result,
        "[struct crate::symbol::SymbolInfo](file:///home/user/project/src/symbol/types.rs#L4)"
    );
}

#[test]
fn test_format_markdown_no_definition() {
    let symbol = SymbolInfo {
        qualified_name: Some("crate::foo::Bar".to_string()),
        kind: Some("function".to_string()),
        definition_uri: None,
        definition_line: None,
    };

    let formatter = MarkdownFormatter;
    let result = formatter.format_markdown(&symbol, None).unwrap();

    assert_eq!(result, "function crate::foo::Bar");
}

#[test]
fn formatter_test_clean_symbol_name_removes_generics() {
    assert_eq!(
        MarkdownFormatter::clean_symbol_name("TmuxSessionManager<E>"),
        "TmuxSessionManager"
    );
    assert_eq!(
        MarkdownFormatter::clean_symbol_name("TmuxSessionManager<E"),
        "TmuxSessionManager"
    );
}

#[test]
fn formatter_test_clean_symbol_name_removes_trailing_chars() {
    assert_eq!(
        MarkdownFormatter::clean_symbol_name("DEFAULT_TIMEOUT:"),
        "DEFAULT_TIMEOUT"
    );
    assert_eq!(
        MarkdownFormatter::clean_symbol_name("MyStruct{"),
        "MyStruct"
    );
}

#[test]
fn test_format_symbol_cleans_up_messy_names() {
    let symbol = SymbolInfo {
        qualified_name: Some("crate::tmux::TmuxSessionManager<E".to_string()),
        kind: Some("struct".to_string()),
        definition_uri: None,
        definition_line: None,
    };
    let result = MarkdownFormatter::format_symbol_name(&symbol);
    assert_eq!(result, "struct crate::tmux::TmuxSessionManager");

    let symbol = SymbolInfo {
        qualified_name: Some("crate::lsp::DEFAULT_TIMEOUT:".to_string()),
        kind: Some("const".to_string()),
        definition_uri: None,
        definition_line: None,
    };
    let result = MarkdownFormatter::format_symbol_name(&symbol);
    assert_eq!(result, "const crate::lsp::DEFAULT_TIMEOUT");
}

#[test]
fn labels_show_what_is_known() {
    assert_eq!(
        MarkdownFormatter::format_symbol_name(&symbol(Some("a "), None, None, None)),
        "a"
    );
    assert_eq!(
        MarkdownFormatter::format_symbol_name(&symbol(None, Some("fn"), None, None)),
        "fn"
    );
    assert_eq!(
        MarkdownFormatter::format_symbol_name(&symbol(None, None, None, None)),
        "unknown"
    );
    assert_eq!(
        MarkdownFormatter::format_local_link("file:///x", Some(7)),
        "file:///x#L7"
    );
    assert_eq!(
        MarkdownFormatter::format_local_link("file:///x", None),
        "file:///x"
    );
    assert!(matches!(LinkType::Local, LinkType::Local));
}

#[test]
fn names_look_the_same_when_cleaned_before() {
    for name in ["Map<K>", "a::B(", "x, ", "y{ ;", "plain"] {
        let clean = jump::RustSymbolExtractor::clean_symbol_name(name);
        assert_eq!(
            MarkdownFormatter::clean_symbol_name(clean),
            MarkdownFormatter::clean_symbol_name(name)
        );
    }
}

#[test]
fn servers_go_by_the_extension() {
    let table = [
        ("a.rs", "rust-analyzer"),
        ("a.ts", "typescript-language-server"),
        ("a.tsx", "typescript-language-server"),
        ("a.js", "typescript-language-server"),
        ("a.jsx", "typescript-language-server"),
        ("a.mjs", "typescript-language-server"),
        ("a.cjs", "typescript-language-server"),
        ("a.py", "pyright-langserver"),
        ("a.pyw", "pyright-langserver"),
        ("a.pyi", "pyright-langserver"),
        ("a.go", "gopls"),
        ("a.lua", "lua-language-server"),
        ("a.c", "clangd"),
        ("a.cpp", "clangd"),
        ("a.cc", "clangd"),
        ("a.cxx", "clangd"),
        ("a.h", "clangd"),
        ("a.hpp", "clangd"),
        ("a.java", "jdtls"),
        ("a.zig", "zls"),
        ("a.nix", "nil"),
        ("a.txt", "rust-analyzer"),
        ("Makefile", "rust-analyzer"),
    ];
    for (path, server) in table {
        assert_eq!(detect_lsp_server(path), server);
        assert_eq!(choose_server(None, path), server);
        assert_eq!(choose_server(Some("mine"), path), "mine");
    }
}

#[test]
fn files_stand_below_the_root() {
    assert_eq!(requested_file("/w", "src/a.rs"), "/w/src/a.rs");
    assert_eq!(requested_file("/w/", "src/a.rs"), "/w/src/a.rs");
    assert_eq!(requested_file("/w", "/src/a.rs"), "/src/a.rs");
}

#[test]
fn servers_are_told_of_documents() {
    let plan = plan_document("/home/me/proj", "/home/me/proj/a.py");
    assert_eq!(plan.language_id, "python");
    assert_eq!(plan.root_uri, "file:///home/me/proj");
    assert_eq!(plan.file_uri, "file:///home/me/proj/a.py");
    assert_eq!(plan.workspace_name, "proj");
    assert_eq!(plan_document("/", "/a").workspace_name, "workspace");
}

#[test]
fn empty_answers_are_asked_for_again() {
    let mut fetch = Fetch::new(6);
    let mut delays = Vec::new();
    loop {
        match fetch.after(&Json::Null, &Json::Null) {
            FetchStep::Retry(ms) => delays.push(ms),
            FetchStep::GiveUp => break,
            FetchStep::Accept => panic!("nothing was there"),
        }
    }
    assert_eq!(delays, vec![200, 400, 800, 1600, 3200, 3200]);
    let mut one = Fetch::new(0);
    assert!(matches!(
        one.after(&Json::Null, &Json::Bool(true)),
        FetchStep::Accept
    ));
    assert!(matches!(
        one.after(&Json::Bool(false), &Json::Null),
        FetchStep::Accept
    ));
    assert!(matches!(
        one.after(&Json::Null, &Json::Null),
        FetchStep::GiveUp
    ));
}

#[test]
fn references_wait_for_permanent_links() {
    let local = begin_reference(symbol(Some("f"), Some("fn"), Some("file:///a"), Some(3)), false, "origin");
    match local {
        Some(Reference::Ready(output)) => assert_eq!(output.markdown, "[fn f](file:///a#L3)"),
        _ => panic!("no link is needed"),
    }
    match begin_reference(symbol(Some("f"), None, Some("file:///a"), None), true, "upstream") {
        Some(Reference::NeedsPermalink(request)) => {
            assert_eq!(request.path, "/a");
            assert_eq!(request.line, 1);
            assert_eq!(request.remote, "upstream");
            let output = finish_reference(&request, &github_link("https://g/x#L1"));
            assert_eq!(output.markdown, "[f](https://g/x#L1)");
        }
        _ => panic!("a link is needed"),
    }
    match begin_reference(symbol(Some("f"), None, None, None), true, "origin") {
        Some(Reference::Ready(output)) => assert_eq!(output.markdown, "f"),
        _ => panic!("there is nothing to link to"),
    }
    assert!(begin_reference(symbol(None, Some("fn"), None, Some(3)), false, "origin").is_none());
}

#[test]
fn hovers_have_symbols_and_texts() {
    let hover = read_json("{\"contents\":\"crate::a\\nfn f()\"}").unwrap();
    let output = hover_output("rust", &hover, &Json::Null);
    assert_eq!(
        output.symbol_info.qualified_name.as_deref(),
        Some("crate::a::f")
    );
    assert_eq!(output.hover_text.as_deref(), Some("crate::a\nfn f()"));
}

fn format_request(file: &str, github: bool) -> FormatSymbolRequest {
    FormatSymbolRequest::from(FormatSymbolArgs {
        root: "/w".to_string(),
        file: file.to_string(),
        line: 1,
        hover_json: None,
        definition_json: None,
        hover_file: None,
        definition_file: None,
        github,
        remote: "origin".to_string(),
    })
}

#[test]
fn arguments_become_requests() {
    let request = CopyMarkdownRequest::from(CopyMarkdownArgs {
        root: "/w".to_string(),
        file: "a.rs".to_string(),
        line: 3,
        character: 4,
        server_path: Some("s".to_string()),
        github: true,
        remote: "up".to_string(),
        lsp_init_delay_ms: 5,
        lsp_max_retries: 6,
        lsp_timeout_ms: 7,
    });
    assert_eq!(request.root, "/w");
    assert_eq!(request.file, "a.rs");
    assert_eq!((request.line, request.character), (3, 4));
    assert_eq!(request.server_path.as_deref(), Some("s"));
    assert!(request.use_github_link);
    assert_eq!(request.remote, "up");
    assert_eq!(request.lsp_init_delay_ms, 5);
    assert_eq!(request.lsp_max_retries, 6);
    assert_eq!(request.lsp_timeout_ms, 7);
    let other = format_request("b.go", true);
    assert_eq!(other.file, "b.go");
    assert!(other.use_github_link);
    assert_eq!(other.remote, "origin");
    assert!(other.hover_file.is_none());
}

#[test]
fn answers_come_from_files_or_arguments() {
    assert!(matches!(
        read_json_input(Some("{}"), Some("/f")),
        JsonSource::File(path) if path == "/f"
    ));
    assert!(matches!(
        read_json_input(Some("@/g"), None),
        JsonSource::File(path) if path == "/g"
    ));
    assert!(matches!(
        read_json_input(Some("[1]"), None),
        JsonSource::Text(text) if text == "[1]"
    ));
    assert!(matches!(
        read_json_input(None, None),
        JsonSource::Text(text) if text == "{}"
    ));
}

#[test]
fn symbols_are_formatted_from_answers() {
    let hover = "{\"2\":{\"result\":{\"contents\":{\"kind\":\"markdown\",\"value\":\"```rust\\ncrate::app\\n```\\n\\n```rust\\npub fn jump(input: JumpInput)\\n```\"}}}}";
    let definition = "{\"2\":{\"result\":[{\"uri\":\"file:///w/app.rs\",\"range\":{\"start\":{\"line\":815}}}]}}";
    match format_symbol(&format_request("app.rs", false), hover, definition) {
        Ok(Reference::Ready(output)) => assert_eq!(
            output.markdown,
            "[fn crate::app::jump](file:///w/app.rs#L816)"
        ),
        _ => panic!("the symbol is there"),
    }
    for remote in ["origin", "upstream"] {
        let mut request = format_request("app.rs", true);
        request.remote = remote.to_string();
        match format_symbol(&request, hover, definition) {
            Ok(Reference::NeedsPermalink(waiting)) => {
                assert_eq!(waiting.path, "/w/app.rs");
                assert_eq!(waiting.line, 816);
                assert_eq!(waiting.remote, remote);
                let output = finish_reference(&waiting, &github_link("https://g/x#L816"));
                assert_eq!(output.markdown, "[fn crate::app::jump](https://g/x#L816)");
            }
            _ => panic!("a link is needed"),
        }
    }
    match format_symbol(&format_request("app.rs", true), hover, "{}") {
        Ok(Reference::Ready(output)) => assert_eq!(output.markdown, "fn crate::app::jump"),
        _ => panic!("there is nothing to link to"),
    }
}

#[test]
fn missing_symbols_are_reported() {
    let nothing = format_symbol(&format_request("a.rs", false), "{}", "{}");
    match nothing {
        Err(error) => {
            assert!(matches!(error, SymbolError::NothingInResults));
            assert_eq!(error.message(), "No symbol found in provided LSP results");
        }
        Ok(_) => panic!("nothing is there"),
    }
    match format_symbol(&format_request("a.rs", false), "{", "{}") {
        Err(error) => {
            assert!(matches!(error, SymbolError::InvalidJson(_)));
            assert_eq!(error.message(), "Failed to parse LSP JSON");
        }
        Ok(_) => panic!("this is no JSON"),
    }
    assert!(matches!(
        format_symbol(&format_request("a.rs", false), "{}", "nope"),
        Err(SymbolError::InvalidJson(_))
    ));
    let go = read_json("{\"contents\":\"type T struct\"}").unwrap();
    match format_answers(&format_request("a.go", false), &go, &Json::Null) {
        Ok(Reference::Ready(output)) => assert_eq!(output.markdown, "struct T"),
        _ => panic!("the symbol is there"),
    }
}
