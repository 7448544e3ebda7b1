//! Extraction of symbols from the answers of a language server.

use vstd::prelude::*;
use vstd::string::*;

use crate::json::{field_of, opt_tree, text_of, Json, JsonTree};
use crate::paths::{extension, extension_of};
use crate::symbol::generic::{
    generic_name, generic_symbol_info, generic_text, GenericSymbolExtractor,
};
use crate::symbol::rust::{rust_name, rust_symbol, rust_text, RustSymbolExtractor};
use crate::symbol::types::{SymbolInfo, SymbolView};
use crate::text::{opt_view, same_text};

verus! {

/// The language of the files with an extension.
pub open spec fn language_of_extension(ext: Seq<char>) -> Seq<char> {
    if ext == "rs"@ {
        "rust"@
    } else if ext == "ts"@ || ext == "tsx"@ {
        "typescript"@
    } else if ext == "js"@ || ext == "jsx"@ || ext == "mjs"@ || ext == "cjs"@ {
        "javascript"@
    } else if ext == "py"@ || ext == "pyw"@ || ext == "pyi"@ {
        "python"@
    } else if ext == "go"@ {
        "go"@
    } else if ext == "java"@ {
        "java"@
    } else if ext == "kt"@ || ext == "kts"@ {
        "kotlin"@
    } else if ext == "c"@ || ext == "h"@ {
        "c"@
    } else if ext == "cpp"@ || ext == "cc"@ || ext == "cxx"@ || ext == "hpp"@ || ext == "hh"@ || ext
        == "hxx"@ {
        "cpp"@
    } else if ext == "cs"@ {
        "csharp"@
    } else if ext == "rb"@ {
        "ruby"@
    } else if ext == "php"@ {
        "php"@
    } else if ext == "swift"@ {
        "swift"@
    } else if ext == "scala"@ {
        "scala"@
    } else if ext == "lua"@ {
        "lua"@
    } else if ext == "sh"@ || ext == "bash"@ || ext == "zsh"@ {
        "shellscript"@
    } else if ext == "json"@ {
        "json"@
    } else if ext == "yaml"@ || ext == "yml"@ {
        "yaml"@
    } else if ext == "toml"@ {
        "toml"@
    } else if ext == "md"@ || ext == "markdown"@ {
        "markdown"@
    } else if ext == "html"@ || ext == "htm"@ {
        "html"@
    } else if ext == "css"@ {
        "css"@
    } else if ext == "scss"@ || ext == "sass"@ {
        "scss"@
    } else if ext == "vue"@ {
        "vue"@
    } else if ext == "svelte"@ {
        "svelte"@
    } else if ext == "zig"@ {
        "zig"@
    } else if ext == "nix"@ {
        "nix"@
    } else {
        "plaintext"@
    }
}

/// The language of the file at `path`.
pub open spec fn language_of(path: Seq<char>) -> Seq<char> {
    match extension_of(path) {
        Some(ext) => language_of_extension(ext),
        None => "plaintext"@,
    }
}

/// The language of the file at `path`, by its extension.
pub fn detect_language(path: &str) -> (r: &'static str)
    ensures
        r@ == language_of(path@),
{
    let ext: &str = match extension(path) {
        Some(ext) => ext,
        None => {
            return "plaintext";
        },
    };
    if same_text(ext, "rs") {
        "rust"
    } else if same_text(ext, "ts") || same_text(ext, "tsx") {
        "typescript"
    } else if same_text(ext, "js") || same_text(ext, "jsx") || same_text(ext, "mjs") || same_text(
        ext,
        "cjs",
    ) {
        "javascript"
    } else if same_text(ext, "py") || same_text(ext, "pyw") || same_text(ext, "pyi") {
        "python"
    } else if same_text(ext, "go") {
        "go"
    } else if same_text(ext, "java") {
        "java"
    } else if same_text(ext, "kt") || same_text(ext, "kts") {
        "kotlin"
    } else if same_text(ext, "c") || same_text(ext, "h") {
        "c"
    } else if same_text(ext, "cpp") || same_text(ext, "cc") || same_text(ext, "cxx") || same_text(
        ext,
        "hpp",
    ) || same_text(ext, "hh") || same_text(ext, "hxx") {
        "cpp"
    } else if same_text(ext, "cs") {
        "csharp"
    } else if same_text(ext, "rb") {
        "ruby"
    } else if same_text(ext, "php") {
        "php"
    } else if same_text(ext, "swift") {
        "swift"
    } else if same_text(ext, "scala") {
        "scala"
    } else if same_text(ext, "lua") {
        "lua"
    } else if same_text(ext, "sh") || same_text(ext, "bash") || same_text(ext, "zsh") {
        "shellscript"
    } else if same_text(ext, "json") {
        "json"
    } else if same_text(ext, "yaml") || same_text(ext, "yml") {
        "yaml"
    } else if same_text(ext, "toml") {
        "toml"
    } else if same_text(ext, "md") || same_text(ext, "markdown") {
        "markdown"
    } else if same_text(ext, "html") || same_text(ext, "htm") {
        "html"
    } else if same_text(ext, "css") {
        "css"
    } else if same_text(ext, "scss") || same_text(ext, "sass") {
        "scss"
    } else if same_text(ext, "vue") {
        "vue"
    } else if same_text(ext, "svelte") {
        "svelte"
    } else if same_text(ext, "zig") {
        "zig"
    } else if same_text(ext, "nix") {
        "nix"
    } else {
        "plaintext"
    }
}

/// The field `first` of a document, or its field `second` where it lacks the first.
pub open spec fn either_field(
    tree: JsonTree,
    first: Seq<char>,
    second: Seq<char>,
) -> Option<JsonTree> {
    match tree.field(first) {
        Some(t) => Some(t),
        None => tree.field(second),
    }
}

/// The URI of a location: of a `Location` its `uri`, of a `LocationLink` its `targetUri`.
pub open spec fn location_uri(location: JsonTree) -> Option<Seq<char>> {
    text_of(either_field(location, "uri"@, "targetUri"@))
}

/// The line number that the range of a location starts with, as a language server counts: from 0.
pub open spec fn location_start(location: JsonTree) -> Option<u64> {
    let range = either_field(location, "range"@, "targetSelectionRange"@);
    match field_of(field_of(range, "start"@), "line"@) {
        Some(line) => line.unsigned(),
        None => None,
    }
}

/// The line number of a location, counted from 1 and kept to 32 bits.
pub open spec fn location_line(location: JsonTree) -> Option<u32> {
    match location_start(location) {
        Some(line) => Some(((line + 1) % 0x1_0000_0000) as u32),
        None => None,
    }
}

/// The first item of an array.
pub open spec fn first_item(tree: JsonTree) -> Option<JsonTree> {
    match tree {
        JsonTree::Array(items) => if items.len() > 0 {
            Some(items[0])
        } else {
            None
        },
        _ => None,
    }
}

/// Where a definition is: the first of an array of locations, or a location that stands alone.
pub open spec fn definition_place(definition: JsonTree) -> Option<JsonTree> {
    match definition {
        JsonTree::Object(_) => Some(definition),
        _ => first_item(definition),
    }
}

/// The URI and the line of a location, where there is one.
pub open spec fn place_of(location: Option<JsonTree>) -> (Option<Seq<char>>, Option<u32>) {
    match location {
        Some(t) => (location_uri(t), location_line(t)),
        None => (None, None),
    }
}

fn get_either<'a>(json: &'a Json, first: &str, second: &str) -> (r: Option<&'a Json>)
    ensures
        opt_tree(r) == either_field(json@, first@, second@),
{
    match json.get(first) {
        Some(value) => Some(value),
        None => json.get(second),
    }
}

/// An optional string slice as a string of its own.
pub fn owned(text: Option<&str>) -> (r: Option<String>)
    ensures
        match text {
            Some(s) => opt_view(r) == Some(s@),
            None => r is None,
        },
{
    match text {
        Some(s) => Some(s.to_string()),
        None => None,
    }
}

/// The number of the line behind `line`, kept to 32 bits.
fn next_line(line: u64) -> (r: u32)
    ensures
        r == (line + 1) % 0x1_0000_0000,
{
    let low: u64 = line % 0x1_0000_0000;
    if low == 0xffff_ffff {
        0
    } else {
        low as u32 + 1
    }
}

/// The URI and the line of a location.
pub fn read_location(location: &Json) -> (r: (Option<String>, Option<u32>))
    ensures
        opt_view(r.0) == location_uri(location@),
        r.1 == location_line(location@),
{
    let uri: Option<String> = match get_either(location, "uri", "targetUri") {
        Some(value) => owned(value.as_str()),
        None => None,
    };
    let range: Option<&Json> = get_either(location, "range", "targetSelectionRange");
    let start: Option<&Json> = match range {
        Some(value) => value.get("start"),
        None => None,
    };
    let number: Option<&Json> = match start {
        Some(value) => value.get("line"),
        None => None,
    };
    let line: Option<u32> = match number {
        Some(value) => match value.as_u64() {
            Some(n) => Some(next_line(n)),
            None => None,
        },
        None => None,
    };
    (uri, line)
}

/// The first item of an array.
pub fn first_of(json: &Json) -> (r: Option<&Json>)
    ensures
        opt_tree(r) == first_item(json@),
{
    match json {
        Json::Array(items) => if items.len() > 0 {
            Some(&items[0])
        } else {
            None
        },
        _ => None,
    }
}

/// The URI and the line of a definition, given as an array of locations or as one location.
pub fn extract_definition_location(definition: &Json) -> (r: (Option<String>, Option<u32>))
    ensures
        (opt_view(r.0), r.1) == place_of(definition_place(definition@)),
{
    let location: Option<&Json> = match definition {
        Json::Object(_) => Some(definition),
        _ => first_of(definition),
    };
    match location {
        Some(json) => read_location(json),
        None => (None, None),
    }
}

/// Reads symbols out of the answers of a language server.
pub trait SymbolExtractor {
    /// The qualified name of the symbol that a hover answer shows.
    spec fn name_in(&self, hover: JsonTree) -> Option<Seq<char>>;

    /// The text of a hover answer.
    spec fn text_in(&self, hover: JsonTree) -> Option<Seq<char>>;

    /// What a hover and a definition answer say of the symbol.
    spec fn symbol_in(&self, hover: JsonTree, definition: JsonTree) -> SymbolView;

    /// The qualified name of the symbol that a hover answer shows.
    fn extract_qualified_name(&self, hover_result: &Json) -> (r: Option<String>)
        ensures
            opt_view(r) == self.name_in(hover_result@),
    ;

    /// The text of a hover answer.
    fn extract_hover_text(&self, hover_result: &Json) -> (r: Option<String>)
        ensures
            opt_view(r) == self.text_in(hover_result@),
    ;

    /// What a hover and a definition answer say of the symbol.
    fn extract_symbol_info(&self, hover: &Json, definition: &Json) -> (r: SymbolInfo)
        ensures
            r@ == self.symbol_in(hover@, definition@),
    ;
}

/// The extractor for a language.
pub enum Extractor {
    Rust(RustSymbolExtractor),
    Generic(GenericSymbolExtractor),
}

impl Extractor {
    /// The extractor is the one for `language`.
    pub open spec fn is_for(&self, language: Seq<char>) -> bool {
        match self {
            Extractor::Rust(_) => language == "rust"@,
            Extractor::Generic(extractor) => language != "rust"@ && extractor.language()
                == language,
        }
    }
}

/// The name that the extractor for a language finds in a hover answer.
pub open spec fn name_for(language: Seq<char>, hover: JsonTree) -> Option<Seq<char>> {
    if language == "rust"@ {
        rust_name(hover)
    } else {
        generic_name(language, hover)
    }
}

/// The text that the extractor for a language finds in a hover answer.
pub open spec fn text_for(language: Seq<char>, hover: JsonTree) -> Option<Seq<char>> {
    if language == "rust"@ {
        rust_text(hover)
    } else {
        generic_text(hover)
    }
}

/// What the extractor for a language finds in a hover and a definition answer.
pub open spec fn symbol_for(
    language: Seq<char>,
    hover: JsonTree,
    definition: JsonTree,
) -> SymbolView {
    if language == "rust"@ {
        rust_symbol(hover, definition)
    } else {
        generic_symbol_info(language, hover, definition)
    }
}

impl SymbolExtractor for Extractor {
    open spec fn name_in(&self, hover: JsonTree) -> Option<Seq<char>> {
        match self {
            Extractor::Rust(_) => rust_name(hover),
            Extractor::Generic(extractor) => generic_name(extractor.language(), hover),
        }
    }

    open spec fn text_in(&self, hover: JsonTree) -> Option<Seq<char>> {
        match self {
            Extractor::Rust(_) => rust_text(hover),
            Extractor::Generic(_) => generic_text(hover),
        }
    }

    open spec fn symbol_in(&self, hover: JsonTree, definition: JsonTree) -> SymbolView {
        match self {
            Extractor::Rust(_) => rust_symbol(hover, definition),
            Extractor::Generic(extractor) => generic_symbol_info(
                extractor.language(),
                hover,
                definition,
            ),
        }
    }

    fn extract_qualified_name(&self, hover_result: &Json) -> (r: Option<String>) {
        match self {
            Extractor::Rust(extractor) => extractor.extract_qualified_name(hover_result),
            Extractor::Generic(extractor) => extractor.extract_qualified_name(hover_result),
        }
    }

    fn extract_hover_text(&self, hover_result: &Json) -> (r: Option<String>) {
        match self {
            Extractor::Rust(extractor) => extractor.extract_hover_text(hover_result),
            Extractor::Generic(extractor) => extractor.extract_hover_text(hover_result),
        }
    }

    fn extract_symbol_info(&self, hover: &Json, definition: &Json) -> (r: SymbolInfo) {
        match self {
            Extractor::Rust(extractor) => extractor.extract_symbol_info(hover, definition),
            Extractor::Generic(extractor) => extractor.extract_symbol_info(hover, definition),
        }
    }
}

/// The extractor for a language.
pub fn create_extractor(language: &str) -> (r: Extractor)
    ensures
        r.is_for(language@),
        forall|hover: JsonTree| #[trigger] r.name_in(hover) == name_for(language@, hover),
        forall|hover: JsonTree| #[trigger] r.text_in(hover) == text_for(language@, hover),
        forall|hover: JsonTree, definition: JsonTree| #[trigger]
            r.symbol_in(hover, definition) == symbol_for(language@, hover, definition),
{
    if same_text(language, "rust") {
        Extractor::Rust(RustSymbolExtractor)
    } else {
        Extractor::Generic(GenericSymbolExtractor::new(language))
    }
}

/// A definition that stands alone is read like one in an array.
pub proof fn lemma_single_definition(location: JsonTree, others: Seq<JsonTree>)
    requires
        location is Object,
    ensures
        definition_place(JsonTree::Array(seq![location] + others)) == definition_place(location),
{
}

/// Lines are counted from 1, where a language server counts from 0.
pub proof fn lemma_lines_count_from_one(location: JsonTree, line: u64)
    requires
        location_start(location) == Some(line),
        line < u32::MAX,
    ensures
        location_line(location) == Some((line + 1) as u32),
{
}

/// A location is at its `uri` and at the start of its `range`; one that is a link is at its
/// `targetUri` and at the start of its `targetSelectionRange`. What a document lacks is not made up.
pub proof fn lemma_locations_are_read(
    location: JsonTree,
    range: JsonTree,
    start: JsonTree,
    uri: Seq<char>,
    line: u64,
)
    ensures
        location.field("uri"@) == Some(JsonTree::Text(uri)) ==> location_uri(location) == Some(uri),
        location.field("uri"@) is None && location.field("targetUri"@) == Some(JsonTree::Text(uri))
            ==> location_uri(location) == Some(uri),
        location.field("uri"@) is None && location.field("targetUri"@) is None ==> location_uri(
            location,
        ) is None,
        start.field("line"@) matches Some(number) && number.unsigned() == Some(line) && range.field(
            "start"@,
        ) == Some(start) ==> {
            &&& location.field("range"@) == Some(range) ==> location_line(location) == Some(
                ((line + 1) % 0x1_0000_0000) as u32,
            )
            &&& location.field("range"@) is None && location.field("targetSelectionRange"@) == Some(
                range,
            ) ==> location_line(location) == Some(((line + 1) % 0x1_0000_0000) as u32)
        },
        location.field("range"@) is None && location.field("targetSelectionRange"@) is None
            ==> location_line(location) is None,
{
}

/// Each language has its own way to read symbols: Rust one, and all others another.
pub proof fn lemma_languages_are_read_in_their_ways(
    language: Seq<char>,
    hover: JsonTree,
    definition: JsonTree,
)
    ensures
        language == "rust"@ ==> {
            &&& symbol_for(language, hover, definition) == rust_symbol(hover, definition)
            &&& name_for(language, hover) == rust_name(hover)
            &&& text_for(language, hover) == rust_text(hover)
        },
        language != "rust"@ ==> {
            &&& symbol_for(language, hover, definition) == generic_symbol_info(
                language,
                hover,
                definition,
            )
            &&& name_for(language, hover) == generic_name(language, hover)
            &&& text_for(language, hover) == generic_text(hover)
        },
        symbol_for(language, hover, definition).qualified_name == name_for(language, hover),
        language != "rust"@ ==> symbol_for(language, hover, definition).kind is None,
{
}

/// Two empty answers show no symbol, in any language.
pub proof fn lemma_empty_answers_show_nothing(language: Seq<char>)
    ensures
        ({
            let symbol = symbol_for(language, JsonTree::Null, JsonTree::Null);
            &&& symbol.qualified_name is None
            &&& symbol.kind is None
            &&& symbol.definition_uri is None
            &&& symbol.definition_line is None
        }),
{
}

/// The extensions of files whose language is known.
pub open spec fn is_known_extension(ext: Seq<char>) -> bool {
    ||| ext == "rs"@
    ||| ext == "ts"@
    ||| ext == "tsx"@
    ||| ext == "js"@
    ||| ext == "jsx"@
    ||| ext == "mjs"@
    ||| ext == "cjs"@
    ||| ext == "py"@
    ||| ext == "pyw"@
    ||| ext == "pyi"@
    ||| ext == "go"@
    ||| ext == "java"@
    ||| ext == "kt"@
    ||| ext == "kts"@
    ||| ext == "c"@
    ||| ext == "h"@
    ||| ext == "cpp"@
    ||| ext == "cc"@
    ||| ext == "cxx"@
    ||| ext == "hpp"@
    ||| ext == "hh"@
    ||| ext == "hxx"@
    ||| ext == "cs"@
    ||| ext == "rb"@
    ||| ext == "php"@
    ||| ext == "swift"@
    ||| ext == "scala"@
    ||| ext == "lua"@
    ||| ext == "sh"@
    ||| ext == "bash"@
    ||| ext == "zsh"@
    ||| ext == "json"@
    ||| ext == "yaml"@
    ||| ext == "yml"@
    ||| ext == "toml"@
    ||| ext == "md"@
    ||| ext == "markdown"@
    ||| ext == "html"@
    ||| ext == "htm"@
    ||| ext == "css"@
    ||| ext == "scss"@
    ||| ext == "sass"@
    ||| ext == "vue"@
    ||| ext == "svelte"@
    ||| ext == "zig"@
    ||| ext == "nix"@
}

/// How the extensions of at most two letters are spelled.
pub proof fn lemma_spelling_of_two()
    ensures
        "rs"@.len() == 2 && "rs"@[0] == 'r' && "rs"@[1] == 's',
        "ts"@.len() == 2 && "ts"@[0] == 't' && "ts"@[1] == 's',
        "js"@.len() == 2 && "js"@[0] == 'j' && "js"@[1] == 's',
        "py"@.len() == 2 && "py"@[0] == 'p' && "py"@[1] == 'y',
        "go"@.len() == 2 && "go"@[0] == 'g' && "go"@[1] == 'o',
        "kt"@.len() == 2 && "kt"@[0] == 'k' && "kt"@[1] == 't',
        "cc"@.len() == 2 && "cc"@[0] == 'c' && "cc"@[1] == 'c',
        "hh"@.len() == 2 && "hh"@[0] == 'h' && "hh"@[1] == 'h',
        "cs"@.len() == 2 && "cs"@[0] == 'c' && "cs"@[1] == 's',
        "rb"@.len() == 2 && "rb"@[0] == 'r' && "rb"@[1] == 'b',
        "sh"@.len() == 2 && "sh"@[0] == 's' && "sh"@[1] == 'h',
        "md"@.len() == 2 && "md"@[0] == 'm' && "md"@[1] == 'd',
        "c"@.len() == 1 && "c"@[0] == 'c',
        "h"@.len() == 1 && "h"@[0] == 'h',
{
    reveal_strlit("rs");
    reveal_strlit("ts");
    reveal_strlit("js");
    reveal_strlit("py");
    reveal_strlit("go");
    reveal_strlit("kt");
    reveal_strlit("cc");
    reveal_strlit("hh");
    reveal_strlit("cs");
    reveal_strlit("rb");
    reveal_strlit("sh");
    reveal_strlit("md");
    reveal_strlit("c");
    reveal_strlit("h");
}

/// How the extensions of three letters are spelled.
pub proof fn lemma_spelling_of_three()
    ensures
        "tsx"@.len() == 3 && "tsx"@[0] == 't' && "tsx"@[1] == 's' && "tsx"@[2] == 'x',
        "jsx"@.len() == 3 && "jsx"@[0] == 'j' && "jsx"@[1] == 's' && "jsx"@[2] == 'x',
        "mjs"@.len() == 3 && "mjs"@[0] == 'm' && "mjs"@[1] == 'j' && "mjs"@[2] == 's',
        "cjs"@.len() == 3 && "cjs"@[0] == 'c' && "cjs"@[1] == 'j' && "cjs"@[2] == 's',
        "pyw"@.len() == 3 && "pyw"@[0] == 'p' && "pyw"@[1] == 'y' && "pyw"@[2] == 'w',
        "pyi"@.len() == 3 && "pyi"@[0] == 'p' && "pyi"@[1] == 'y' && "pyi"@[2] == 'i',
        "kts"@.len() == 3 && "kts"@[0] == 'k' && "kts"@[1] == 't' && "kts"@[2] == 's',
        "cpp"@.len() == 3 && "cpp"@[0] == 'c' && "cpp"@[1] == 'p' && "cpp"@[2] == 'p',
        "cxx"@.len() == 3 && "cxx"@[0] == 'c' && "cxx"@[1] == 'x' && "cxx"@[2] == 'x',
        "hpp"@.len() == 3 && "hpp"@[0] == 'h' && "hpp"@[1] == 'p' && "hpp"@[2] == 'p',
        "hxx"@.len() == 3 && "hxx"@[0] == 'h' && "hxx"@[1] == 'x' && "hxx"@[2] == 'x',
        "php"@.len() == 3 && "php"@[0] == 'p' && "php"@[1] == 'h' && "php"@[2] == 'p',
        "lua"@.len() == 3 && "lua"@[0] == 'l' && "lua"@[1] == 'u' && "lua"@[2] == 'a',
        "zsh"@.len() == 3 && "zsh"@[0] == 'z' && "zsh"@[1] == 's' && "zsh"@[2] == 'h',
        "yml"@.len() == 3 && "yml"@[0] == 'y' && "yml"@[1] == 'm' && "yml"@[2] == 'l',
        "htm"@.len() == 3 && "htm"@[0] == 'h' && "htm"@[1] == 't' && "htm"@[2] == 'm',
        "css"@.len() == 3 && "css"@[0] == 'c' && "css"@[1] == 's' && "css"@[2] == 's',
        "vue"@.len() == 3 && "vue"@[0] == 'v' && "vue"@[1] == 'u' && "vue"@[2] == 'e',
        "zig"@.len() == 3 && "zig"@[0] == 'z' && "zig"@[1] == 'i' && "zig"@[2] == 'g',
        "nix"@.len() == 3 && "nix"@[0] == 'n' && "nix"@[1] == 'i' && "nix"@[2] == 'x',
{
    reveal_strlit("tsx");
    reveal_strlit("jsx");
    reveal_strlit("mjs");
    reveal_strlit("cjs");
    reveal_strlit("pyw");
    reveal_strlit("pyi");
    reveal_strlit("kts");
    reveal_strlit("cpp");
    reveal_strlit("cxx");
    reveal_strlit("hpp");
    reveal_strlit("hxx");
    reveal_strlit("php");
    reveal_strlit("lua");
    reveal_strlit("zsh");
    reveal_strlit("yml");
    reveal_strlit("htm");
    reveal_strlit("css");
    reveal_strlit("vue");
    reveal_strlit("zig");
    reveal_strlit("nix");
}

/// How the extensions of four letters are spelled.
pub proof fn lemma_spelling_of_four()
    ensures
        "java"@.len() == 4,
        "java"@[0] == 'j',
        "java"@[1] == 'a',
        "java"@[2] == 'v',
        "java"@[3] == 'a',
        "bash"@.len() == 4,
        "bash"@[0] == 'b',
        "bash"@[1] == 'a',
        "bash"@[2] == 's',
        "bash"@[3] == 'h',
        "json"@.len() == 4,
        "json"@[0] == 'j',
        "json"@[1] == 's',
        "json"@[2] == 'o',
        "json"@[3] == 'n',
        "yaml"@.len() == 4,
        "yaml"@[0] == 'y',
        "yaml"@[1] == 'a',
        "yaml"@[2] == 'm',
        "yaml"@[3] == 'l',
        "toml"@.len() == 4,
        "toml"@[0] == 't',
        "toml"@[1] == 'o',
        "toml"@[2] == 'm',
        "toml"@[3] == 'l',
        "html"@.len() == 4,
        "html"@[0] == 'h',
        "html"@[1] == 't',
        "html"@[2] == 'm',
        "html"@[3] == 'l',
        "scss"@.len() == 4,
        "scss"@[0] == 's',
        "scss"@[1] == 'c',
        "scss"@[2] == 's',
        "scss"@[3] == 's',
        "sass"@.len() == 4,
        "sass"@[0] == 's',
        "sass"@[1] == 'a',
        "sass"@[2] == 's',
        "sass"@[3] == 's',
{
    reveal_strlit("java");
    reveal_strlit("bash");
    reveal_strlit("json");
    reveal_strlit("yaml");
    reveal_strlit("toml");
    reveal_strlit("html");
    reveal_strlit("scss");
    reveal_strlit("sass");
}

/// How the extensions of five letters or more are spelled.
pub proof fn lemma_spelling_of_more()
    ensures
        "swift"@.len() == 5,
        "swift"@[0] == 's',
        "swift"@[1] == 'w',
        "swift"@[2] == 'i',
        "swift"@[3] == 'f',
        "scala"@.len() == 5,
        "scala"@[0] == 's',
        "scala"@[1] == 'c',
        "scala"@[2] == 'a',
        "scala"@[3] == 'l',
        "markdown"@.len() == 8,
        "markdown"@[0] == 'm',
        "markdown"@[1] == 'a',
        "markdown"@[2] == 'r',
        "markdown"@[3] == 'k',
        "svelte"@.len() == 6,
        "svelte"@[0] == 's',
        "svelte"@[1] == 'v',
        "svelte"@[2] == 'e',
        "svelte"@[3] == 'l',
{
    reveal_strlit("swift");
    reveal_strlit("scala");
    reveal_strlit("markdown");
    reveal_strlit("svelte");
}

/// The language of a file goes by its extension; a file with another extension, or without one, is
/// plain text.
pub proof fn lemma_extensions_have_their_languages(path: Seq<char>)
    ensures
        extension_of(path) is None ==> language_of(path) == "plaintext"@,
        extension_of(path) matches Some(ext) ==> {
            &&& ext == "rs"@ ==> language_of(path) == "rust"@
            &&& ext == "ts"@ || ext == "tsx"@ ==> language_of(path) == "typescript"@
            &&& ext == "js"@ || ext == "jsx"@ || ext == "mjs"@ || ext == "cjs"@ ==> language_of(
                path,
            ) == "javascript"@
            &&& ext == "py"@ || ext == "pyw"@ || ext == "pyi"@ ==> language_of(path) == "python"@
            &&& ext == "go"@ ==> language_of(path) == "go"@
            &&& ext == "java"@ ==> language_of(path) == "java"@
            &&& ext == "kt"@ || ext == "kts"@ ==> language_of(path) == "kotlin"@
            &&& ext == "c"@ || ext == "h"@ ==> language_of(path) == "c"@
            &&& ext == "cpp"@ || ext == "cc"@ || ext == "cxx"@ || ext == "hpp"@
                || ext == "hh"@ || ext == "hxx"@ ==> language_of(path) == "cpp"@
            &&& ext == "cs"@ ==> language_of(path) == "csharp"@
            &&& ext == "rb"@ ==> language_of(path) == "ruby"@
            &&& ext == "php"@ ==> language_of(path) == "php"@
            &&& ext == "swift"@ ==> language_of(path) == "swift"@
            &&& ext == "scala"@ ==> language_of(path) == "scala"@
            &&& ext == "lua"@ ==> language_of(path) == "lua"@
            &&& ext == "sh"@ || ext == "bash"@ || ext == "zsh"@ ==> language_of(path)
                == "shellscript"@
            &&& ext == "json"@ ==> language_of(path) == "json"@
            &&& ext == "yaml"@ || ext == "yml"@ ==> language_of(path) == "yaml"@
            &&& ext == "toml"@ ==> language_of(path) == "toml"@
            &&& ext == "md"@ || ext == "markdown"@ ==> language_of(path) == "markdown"@
            &&& ext == "html"@ || ext == "htm"@ ==> language_of(path) == "html"@
            &&& ext == "css"@ ==> language_of(path) == "css"@
            &&& ext == "scss"@ || ext == "sass"@ ==> language_of(path) == "scss"@
            &&& ext == "vue"@ ==> language_of(path) == "vue"@
            &&& ext == "svelte"@ ==> language_of(path) == "svelte"@
            &&& ext == "zig"@ ==> language_of(path) == "zig"@
            &&& ext == "nix"@ ==> language_of(path) == "nix"@
            &&& !is_known_extension(ext) ==> language_of(path) == "plaintext"@
        },
{
    lemma_spelling_of_two();
    lemma_spelling_of_three();
    lemma_spelling_of_four();
    lemma_spelling_of_more();
}

} // verus!
