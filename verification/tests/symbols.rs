//! Symbols out of the answers of language servers.

use jump::json::{read_json, Json};
use jump::symbol::extractor::{
    create_extractor, detect_language, extract_definition_location, Extractor, SymbolExtractor,
};
use jump::symbol::generic::GenericSymbolExtractor;
use jump::symbol::markdown::extract_plaintext_from_markdown;
use jump::symbol::rust::RustSymbolExtractor;

fn json(text: &str) -> Json {
    read_json(text).unwrap()
}

fn hover(value: &str) -> Json {
    let mut text = String::from("{\"contents\":{\"kind\":\"plaintext\",\"value\":\"");
    text.push_str(&value.replace('\n', "\\n").replace('"', "\\\""));
    text.push_str("\"}}");
    json(&text)
}

fn rust_name(value: &str) -> Option<String> {
    RustSymbolExtractor.extract_qualified_name(&hover(value))
}

fn name_of(language: &str, value: &str) -> Option<String> {
    create_extractor(language).extract_qualified_name(&hover(value))
}

#[test]
fn extractor_test_clean_symbol_name_removes_generics() {
    assert_eq!(
        RustSymbolExtractor::clean_symbol_name("TmuxSessionManager<E>"),
        "TmuxSessionManager"
    );
    assert_eq!(
        RustSymbolExtractor::clean_symbol_name("TmuxSessionManager<E"),
        "TmuxSessionManager"
    );
    assert_eq!(
        RustSymbolExtractor::clean_symbol_name("HashMap<K, V>"),
        "HashMap"
    );
}

#[test]
fn extractor_test_clean_symbol_name_removes_trailing_chars() {
    assert_eq!(
        RustSymbolExtractor::clean_symbol_name("DEFAULT_TIMEOUT:"),
        "DEFAULT_TIMEOUT"
    );
    assert_eq!(
        RustSymbolExtractor::clean_symbol_name("MyStruct{"),
        "MyStruct"
    );
    assert_eq!(RustSymbolExtractor::clean_symbol_name("Value;"), "Value");
    assert_eq!(RustSymbolExtractor::clean_symbol_name("func("), "func");
    assert_eq!(RustSymbolExtractor::clean_symbol_name("item,"), "item");
}

#[test]
fn test_clean_symbol_name_no_change_needed() {
    assert_eq!(
        RustSymbolExtractor::clean_symbol_name("SimpleType"),
        "SimpleType"
    );
    assert_eq!(
        RustSymbolExtractor::clean_symbol_name("my_function"),
        "my_function"
    );
}

#[test]
fn test_clean_symbol_name_combined() {
    assert_eq!(
        RustSymbolExtractor::clean_symbol_name("Generic<T>:"),
        "Generic"
    );
    assert_eq!(
        RustSymbolExtractor::clean_symbol_name("Type<A, B>{"),
        "Type"
    );
}

#[test]
fn cleaning_a_name_again_changes_nothing() {
    for name in ["Generic<T>:", "a{;:(,", "x::y<z>(", "", "<T>", "plain name"] {
        let clean = RustSymbolExtractor::clean_symbol_name(name);
        assert_eq!(RustSymbolExtractor::clean_symbol_name(clean), clean);
        assert!(name.starts_with(clean));
        assert!(!clean.contains('<'));
    }
}

#[test]
fn languages_go_by_the_extension() {
    assert_eq!(detect_language("/a/b/main.rs"), "rust");
    assert_eq!(detect_language("x.tsx"), "typescript");
    assert_eq!(detect_language("x.mjs"), "javascript");
    assert_eq!(detect_language("x.pyi"), "python");
    assert_eq!(detect_language("x.go"), "go");
    assert_eq!(detect_language("x.kts"), "kotlin");
    assert_eq!(detect_language("x.h"), "c");
    assert_eq!(detect_language("x.hxx"), "cpp");
    assert_eq!(detect_language("x.cs"), "csharp");
    assert_eq!(detect_language("x.zsh"), "shellscript");
    assert_eq!(detect_language("x.yml"), "yaml");
    assert_eq!(detect_language("x.markdown"), "markdown");
    assert_eq!(detect_language("x.sass"), "scss");
    assert_eq!(detect_language("x.nix"), "nix");
    assert_eq!(detect_language("archive.tar.gz"), "plaintext");
    assert_eq!(detect_language("Makefile"), "plaintext");
    assert_eq!(detect_language(".rs"), "plaintext");
    assert_eq!(detect_language("x.RS"), "plaintext");
}

#[test]
fn every_extension_has_its_language() {
    let table = [
        ("java", "java"),
        ("kt", "kotlin"),
        ("c", "c"),
        ("cpp", "cpp"),
        ("cc", "cpp"),
        ("cxx", "cpp"),
        ("hpp", "cpp"),
        ("hh", "cpp"),
        ("rb", "ruby"),
        ("php", "php"),
        ("swift", "swift"),
        ("scala", "scala"),
        ("lua", "lua"),
        ("sh", "shellscript"),
        ("bash", "shellscript"),
        ("json", "json"),
        ("yaml", "yaml"),
        ("toml", "toml"),
        ("md", "markdown"),
        ("html", "html"),
        ("htm", "html"),
        ("css", "css"),
        ("scss", "scss"),
        ("vue", "vue"),
        ("svelte", "svelte"),
        ("zig", "zig"),
        ("ts", "typescript"),
        ("js", "javascript"),
        ("jsx", "javascript"),
        ("cjs", "javascript"),
        ("py", "python"),
        ("pyw", "python"),
    ];
    for (ext, language) in table {
        assert_eq!(detect_language(&format!("dir/file.{}", ext)), language);
    }
}

#[test]
fn a_language_has_its_extractor() {
    assert!(matches!(create_extractor("rust"), Extractor::Rust(_)));
    assert!(matches!(create_extractor("go"), Extractor::Generic(_)));
    assert!(matches!(create_extractor(""), Extractor::Generic(_)));
}

#[test]
fn code_blocks_are_stripped() {
    let md = "```rust\nmodule\n```\n\n```rust\nfn name()\n```";
    assert_eq!(
        RustSymbolExtractor::strip_markdown_code_blocks(md),
        "module\nfn name()"
    );
    assert_eq!(extract_plaintext_from_markdown(md), "module\nfn name()");
    assert_eq!(
        RustSymbolExtractor::strip_markdown_code_blocks("no code\nat all"),
        "no code\nat all"
    );
    assert_eq!(extract_plaintext_from_markdown("no code\nat all"), "");
    assert_eq!(
        extract_plaintext_from_markdown("text\r\n  ```\r\n  a  \r\n\r\n b\r\n"),
        "a\nb"
    );
}

#[test]
fn stripping_code_blocks_twice_changes_nothing() {
    for md in [
        "```rust\nmodule\n```\n\n```rust\nfn name()\n```",
        "no code",
        "",
        "```\n``` a\n```\nb",
        "``` x\n  y  \n\n z\n```\ntail",
    ] {
        let once = RustSymbolExtractor::strip_markdown_code_blocks(md);
        assert_eq!(RustSymbolExtractor::strip_markdown_code_blocks(&once), once);
    }
}

#[test]
fn declarations_have_kinds_and_names() {
    let e = RustSymbolExtractor;
    assert_eq!(
        e.extract_kind_and_name("struct Foo<T> {"),
        Some(("struct", "Foo"))
    );
    assert_eq!(e.extract_kind_and_name("enum E{"), Some(("enum", "E")));
    assert_eq!(e.extract_kind_and_name("trait T:"), Some(("trait", "T")));
    assert_eq!(
        e.extract_kind_and_name("const MAX: usize = 1"),
        Some(("const", "MAX"))
    );
    assert_eq!(e.extract_kind_and_name("static S;"), Some(("static", "S")));
    assert_eq!(
        e.extract_kind_and_name("type Alias<T> = Vec<T>"),
        Some(("type", "Alias"))
    );
    assert_eq!(e.extract_kind_and_name("type Id; x"), Some(("type", "Id")));
    assert_eq!(e.extract_kind_and_name("type A: B"), Some(("type", "A:")));
    assert_eq!(
        e.extract_kind_and_name("fn run<T>(x: T)"),
        Some(("fn", "run"))
    );
    assert_eq!(
        e.extract_kind_and_name("async fn go(x: u8)"),
        Some(("fn", "go"))
    );
    assert_eq!(e.extract_kind_and_name("async fn"), None);
    assert_eq!(e.extract_kind_and_name("async move"), Some(("fn", "move")));
    assert_eq!(e.extract_kind_and_name("struct"), None);
    assert_eq!(e.extract_kind_and_name("impl Foo"), None);
}

#[test]
fn let_bindings_are_read() {
    let e = RustSymbolExtractor;
    assert_eq!(
        e.extract_let_binding(" let x: Vec<u8> "),
        Some(("x", "Vec<u8>"))
    );
    assert_eq!(
        e.extract_let_binding("let p: std::path::PathBuf"),
        Some(("p", "std::path::PathBuf"))
    );
    assert_eq!(e.extract_let_binding("let mut x: u8"), None);
    assert_eq!(e.extract_let_binding("let x"), None);
    assert_eq!(e.extract_let_binding("let x:"), None);
    assert_eq!(e.extract_let_binding("lets x: u8"), None);
}

#[test]
fn fields_are_read() {
    let e = RustSymbolExtractor;
    assert_eq!(e.extract_field("pub name: String"), Some("name"));
    assert_eq!(e.extract_field("  count : u8"), Some("count"));
    assert_eq!(e.extract_field("fn f(x: u8)"), None);
    assert_eq!(e.extract_field("pub fn f(x: u8)"), None);
    assert_eq!(e.extract_field("two words: u8"), None);
    assert_eq!(e.extract_field(": u8"), None);
    assert_eq!(e.extract_field("nothing"), None);
}

#[test]
fn kinds_stand_below_the_first_line() {
    let e = RustSymbolExtractor;
    assert_eq!(
        e.extract_kind_from_hover("crate::a\npub struct B"),
        Some("struct".to_string())
    );
    assert_eq!(
        e.extract_kind_from_hover("crate::a::B\nname: String"),
        Some("field".to_string())
    );
    assert_eq!(e.extract_kind_from_hover("struct B"), None);
    assert_eq!(e.extract_kind_from_hover(""), None);
    assert_eq!(
        e.extract_kind_from_hover("```rust\ncrate::a\n```\n\n```rust\npub fn f()\n```"),
        Some("fn".to_string())
    );
}

#[test]
fn qualified_names_of_rust() {
    assert_eq!(
        rust_name("crate::app\npub struct Foo<T>"),
        Some("crate::app::Foo".to_string())
    );
    assert_eq!(
        rust_name("crate::app\npub async fn run(x: u8)"),
        Some("crate::app::run".to_string())
    );
    assert_eq!(
        rust_name("crate::app::Foo\npub name: String"),
        Some("crate::app::Foo::name".to_string())
    );
    assert_eq!(
        rust_name("let x: Vec<u8>\nmore"),
        Some("let x: Vec<u8>".to_string())
    );
    assert_eq!(rust_name("fn local(x: u8)"), Some("local()".to_string()));
    assert_eq!(rust_name("pub struct Local;"), Some("Local".to_string()));
    assert_eq!(
        rust_name("jump\n\npub enum Kind"),
        Some("jump::Kind".to_string())
    );
    assert_eq!(rust_name("just text"), None);
    assert_eq!(rust_name(""), None);
}

#[test]
fn contents_of_rust_hovers_take_several_forms() {
    let e = RustSymbolExtractor;
    assert_eq!(
        e.extract_qualified_name(&json("{\"contents\":\"crate::a\\nfn f()\"}")),
        Some("crate::a::f".to_string())
    );
    let md = "{\"contents\":{\"kind\":\"markdown\",\"value\":\"```rust\\ncrate::a\\n```\\n```rust\\nfn f()\\n```\"}}";
    assert_eq!(
        e.extract_qualified_name(&json(md)),
        Some("crate::a::f".to_string())
    );
    let untold = "{\"contents\":{\"value\":\"```rust\\ncrate::a\\n```\\n```rust\\nfn f()\\n```\"}}";
    assert_eq!(
        e.extract_qualified_name(&json(untold)),
        Some("crate::a::f".to_string())
    );
    assert_eq!(e.extract_qualified_name(&json("{}")), None);
    assert_eq!(e.extract_qualified_name(&json("null")), None);
    assert_eq!(e.extract_qualified_name(&json("{\"contents\":[\"fn f()\"]}")), None);
    assert_eq!(e.extract_qualified_name(&json("{\"contents\":{\"value\":1}}")), None);
}

#[test]
fn hover_texts_of_rust() {
    let e = RustSymbolExtractor;
    assert_eq!(
        e.extract_hover_text(&json("{\"contents\":\"a\"}")),
        Some("a".to_string())
    );
    assert_eq!(
        e.extract_hover_text(&json("{\"contents\":[\"a\",{\"value\":\"b\"},[\"c\",7]]}")),
        Some("a\nb\nc\n7".to_string())
    );
    assert_eq!(
        e.extract_hover_text(&json("{\"contents\":{\"z\":1,\"a\":[true,null]}}")),
        Some("{\"a\":[true,null],\"z\":1}".to_string())
    );
    assert_eq!(e.extract_hover_text(&json("[]")), None);
}

#[test]
fn symbols_of_rust_have_kinds_and_places() {
    let definition = json(
        "[{\"targetUri\":\"file:///a.rs\",\"targetSelectionRange\":{\"start\":{\"line\":41,\"character\":0}}}]",
    );
    let info = RustSymbolExtractor
        .extract_symbol_info(&hover("crate::app\npub struct Foo"), &definition);
    assert_eq!(info.qualified_name.as_deref(), Some("crate::app::Foo"));
    assert_eq!(info.kind.as_deref(), Some("struct"));
    assert_eq!(info.definition_uri.as_deref(), Some("file:///a.rs"));
    assert_eq!(info.definition_line, Some(42));
}

#[test]
fn a_single_location_is_no_definition_of_rust() {
    let definition = json("{\"uri\":\"file:///a.rs\",\"range\":{\"start\":{\"line\":1}}}");
    let info = RustSymbolExtractor.extract_symbol_info(&hover("x"), &definition);
    assert_eq!(info.definition_uri, None);
    assert_eq!(info.definition_line, None);
}

#[test]
fn definitions_are_locations_or_links() {
    let location = "{\"uri\":\"file:///a\",\"range\":{\"start\":{\"line\":0}}}";
    assert_eq!(
        extract_definition_location(&json(location)),
        (Some("file:///a".to_string()), Some(1))
    );
    assert_eq!(
        extract_definition_location(&json(&format!("[{},{{\"uri\":\"b\"}}]", location))),
        (Some("file:///a".to_string()), Some(1))
    );
    let link = "{\"targetUri\":\"file:///b\",\"targetSelectionRange\":{\"start\":{\"line\":9}}}";
    assert_eq!(
        extract_definition_location(&json(link)),
        (Some("file:///b".to_string()), Some(10))
    );
    assert_eq!(extract_definition_location(&json("[]")), (None, None));
    assert_eq!(extract_definition_location(&json("null")), (None, None));
    assert_eq!(extract_definition_location(&json("{}")), (None, None));
    assert_eq!(
        extract_definition_location(&json("{\"uri\":3,\"range\":{\"start\":{\"line\":-1}}}")),
        (None, None)
    );
    assert_eq!(
        extract_definition_location(&json("{\"range\":{\"start\":{\"line\":4294967295}}}")),
        (None, Some(0))
    );
}

#[test]
fn leading_code_blocks_are_stripped() {
    let e = GenericSymbolExtractor::new("go");
    assert_eq!(
        e.strip_markdown_code_block("  ```go\nfunc A()\n  x\n```\nmore"),
        "func A()\n  x"
    );
    assert_eq!(e.strip_markdown_code_block("```go\n```"), "```go\n```");
    assert_eq!(e.strip_markdown_code_block("```go\nopen"), "```go\nopen");
    assert_eq!(e.strip_markdown_code_block("  plain \n"), "plain");
    assert_eq!(e.strip_markdown_code_block("```"), "```");
}

#[test]
fn symbols_of_typescript() {
    let e = GenericSymbolExtractor::new("typescript");
    let cases = [
        ("(property) foo: string", "foo"),
        ("(method) Bar.baz(): void", "Bar.baz"),
        ("(alias) class X<T>", "class X"),
        ("(type alias) type T = string", "type T"),
        ("(parameter) p: number", "p"),
        ("(local var) v: number", "v"),
        ("(local const) c: number", "c"),
        ("const x: number", "const x"),
        ("let y: number", "const y"),
        ("var z", "const z"),
        ("function f<T>(a: T): void", "function f"),
        ("async go()", "function go"),
        ("interface I", "interface I"),
        ("enum E", "enum E"),
        ("namespace N", "namespace N"),
        ("name", "name"),
        ("class", "class class"),
    ];
    for (line, symbol) in cases {
        assert_eq!(e.extract_ts_symbol(line), Some(symbol.to_string()));
    }
    assert_eq!(e.extract_ts_symbol(""), None);
    assert_eq!(e.extract_ts_symbol("(property) "), None);
    assert_eq!(
        name_of("javascript", "```js\nfunction f(a)\n```"),
        Some("function f".to_string())
    );
}

#[test]
fn symbols_of_python() {
    let e = GenericSymbolExtractor::new("python");
    assert_eq!(
        e.extract_python_symbol("def foo(x: int) -> str"),
        Some("def foo".to_string())
    );
    assert_eq!(
        e.extract_python_symbol("async def bar()"),
        Some("def bar".to_string())
    );
    assert_eq!(e.extract_python_symbol("async def"), None);
    assert_eq!(
        e.extract_python_symbol("class Baz(Base):"),
        Some("class Baz".to_string())
    );
    assert_eq!(
        e.extract_python_symbol("class Qux:"),
        Some("class Qux".to_string())
    );
    assert_eq!(e.extract_python_symbol("class"), None);
    assert_eq!(
        e.extract_python_symbol("(variable) name: int"),
        Some("name".to_string())
    );
    assert_eq!(
        e.extract_python_symbol("count : int"),
        Some("count".to_string())
    );
    assert_eq!(e.extract_python_symbol("  "), None);
}

#[test]
fn symbols_of_go() {
    let e = GenericSymbolExtractor::new("go");
    assert_eq!(
        e.extract_go_symbol("func Foo(x int)"),
        Some("func Foo".to_string())
    );
    assert_eq!(e.extract_go_symbol("func"), None);
    assert_eq!(
        e.extract_go_symbol("type Bar struct"),
        Some("struct Bar".to_string())
    );
    assert_eq!(
        e.extract_go_symbol("type Bar"),
        Some("type Bar".to_string())
    );
    assert_eq!(e.extract_go_symbol("type"), None);
    assert_eq!(e.extract_go_symbol("var x int"), Some("var x".to_string()));
    assert_eq!(
        e.extract_go_symbol("const c = 1"),
        Some("const c".to_string())
    );
    assert_eq!(e.extract_go_symbol("const"), None);
    assert_eq!(
        e.extract_go_symbol("package main"),
        Some("package main".to_string())
    );
    assert_eq!(e.extract_go_symbol(""), None);
}

#[test]
fn symbols_of_other_languages_are_first_lines() {
    assert_eq!(
        name_of("lua", "\n  local x = 1 \nmore"),
        Some("local x = 1".to_string())
    );
    assert_eq!(name_of("lua", "   "), None);
}

#[test]
fn texts_of_generic_hovers() {
    let e = GenericSymbolExtractor::new("python");
    assert_eq!(
        e.extract_hover_text(&json("{\"contents\":[\"a\",{\"value\":\"b\"},7,{\"kind\":\"markdown\"}]}")),
        Some("a\nb".to_string())
    );
    assert_eq!(e.extract_hover_text(&json("{\"contents\":[]}")), None);
    assert_eq!(e.extract_hover_text(&json("{\"contents\":null}")), None);
    assert_eq!(e.extract_hover_text(&json("{}")), None);
    assert_eq!(
        e.extract_hover_text(&json("{\"contents\":{\"language\":\"python\",\"value\":\"v\"}}")),
        Some("v".to_string())
    );
}

#[test]
fn generic_symbols_have_no_kind() {
    let definition = json("{\"uri\":\"file:///m.go\",\"range\":{\"start\":{\"line\":4}}}");
    let info = create_extractor("go").extract_symbol_info(&hover("func Foo()"), &definition);
    assert_eq!(info.qualified_name.as_deref(), Some("func Foo"));
    assert_eq!(info.kind, None);
    assert_eq!(info.definition_uri.as_deref(), Some("file:///m.go"));
    assert_eq!(info.definition_line, Some(5));
    assert_eq!(
        create_extractor("rust").extract_hover_text(&hover("t")),
        Some("t".to_string())
    );
}
