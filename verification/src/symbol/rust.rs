//! Symbols of Rust, as rust-analyzer shows them.

use vstd::prelude::*;
use vstd::string::*;

use crate::json::{field_of, json_text, text_of, Json, JsonTree};
use crate::symbol::extractor::{
    first_item, first_of, location_line, location_uri, place_of, read_location, SymbolExtractor,
};
use crate::symbol::markdown::{
    code_block_lines, code_lines, code_or_text, lemma_code_holds_no_blocks,
};
use crate::symbol::types::{SymbolInfo, SymbolView};
use crate::text::{
    after_char, before_char, char_position, contains, has_char, has_prefix, has_text,
    is_whitespace, join, join_strings, joined, lemma_before_char, lemma_char_position_facts,
    lemma_split_at_char, lemma_stripped_end, lemma_stripped_end_facts,
    lemma_texts_stand_in_others, lemma_trimmed_facts, lemma_trimmed_inner, lemma_trimmed_twice,
    lemma_views, line_list, lines, opt_str, past_prefix, same_text, skip_prefix, starts_with,
    string_views, strip_end, strip_prefix, stripped_end, take_after, take_before, trim, trimmed,
    views, without_prefix, word_list, words,
};

verus! {

/// What is cut off the end of a name.
pub open spec fn name_ending() -> Seq<char> {
    seq!['{', ';', ':', '(', ',']
}

/// A name without its generics and without what follows a name in a declaration.
pub open spec fn clean_name(name: Seq<char>) -> Seq<char> {
    stripped_end(before_char(name, '<'), name_ending())
}

/// The words that start a declaration whose name is the next word.
pub open spec fn is_plain_kind(word: Seq<char>) -> bool {
    word == "struct"@ || word == "enum"@ || word == "trait"@ || word == "const"@ || word
        == "static"@
}

/// The name of a type alias, given the word that holds it.
pub open spec fn alias_name(word: Seq<char>) -> Seq<char> {
    if word.contains('<') {
        before_char(word, '<')
    } else {
        stripped_end(word, seq!['{', ';'])
    }
}

/// The kind and the name of the item that a line declares.
pub open spec fn kind_and_name(line: Seq<char>) -> Option<(Seq<char>, Seq<char>)> {
    let list = word_list(line);
    if list.len() < 2 {
        None
    } else if is_plain_kind(list[0]) {
        Some((list[0], clean_name(list[1])))
    } else if list[0] == "type"@ {
        Some((list[0], alias_name(list[1])))
    } else if list[0] == "async"@ && list[1] == "fn"@ {
        if list.len() > 2 {
            Some(("fn"@, before_char(before_char(list[2], '('), '<')))
        } else {
            None
        }
    } else if list[0] == "fn"@ || list[0] == "async"@ {
        Some(("fn"@, before_char(before_char(list[1], '('), '<')))
    } else {
        None
    }
}

/// The name and the type of the variable that a line binds with `let`.
pub open spec fn let_binding(line: Seq<char>) -> Option<(Seq<char>, Seq<char>)> {
    match without_prefix(trimmed(line), "let "@) {
        Some(rest) => match after_char(rest, ':') {
            Some(after) => {
                let name = trimmed(before_char(rest, ':'));
                let ty = trimmed(after);
                if name.len() > 0 && !name.contains(' ') && ty.len() > 0 {
                    Some((name, ty))
                } else {
                    None
                }
            },
            None => None,
        },
        None => None,
    }
}

/// The name of the field that a line declares.
pub open spec fn field_name(line: Seq<char>) -> Option<Seq<char>> {
    let t = trimmed(line);
    let name = past_prefix(trimmed(before_char(t, ':')), "pub "@);
    if t.contains(':') && !has_prefix(t, "fn "@) && !has_prefix(t, "pub fn "@) && name.len() > 0
        && !name.contains(' ') {
        Some(name)
    } else {
        None
    }
}

/// The kind of what a line declares: of an item its own, of a field `field`.
pub open spec fn kind_in_line(line: Seq<char>) -> Option<Seq<char>> {
    let t = trimmed(line);
    match kind_and_name(past_prefix(t, "pub "@)) {
        Some((kind, _)) => Some(kind),
        None => if field_name(t) is Some {
            Some("field"@)
        } else {
            None
        },
    }
}

/// The kind of the first declaration among `lines`.
pub open spec fn first_kind(lines: Seq<Seq<char>>) -> Option<Seq<char>>
    decreases lines.len(),
{
    if lines.len() == 0 {
        None
    } else {
        match kind_in_line(lines[0]) {
            Some(kind) => Some(kind),
            None => first_kind(lines.drop_first()),
        }
    }
}

/// The kind of the symbol that a hover text shows: of the first declaration below its first line.
pub open spec fn kind_in_hover(text: Seq<char>) -> Option<Seq<char>> {
    let shown = if has_text(text, "```"@) {
        code_or_text(text)
    } else {
        text
    };
    let list = line_list(shown);
    if list.len() == 0 {
        None
    } else {
        first_kind(list.drop_first())
    }
}

/// The text of the contents of a hover answer: they are a text or an object with a `value`.
pub open spec fn raw_contents(contents: JsonTree) -> Option<Seq<char>> {
    match contents {
        JsonTree::Object(_) => text_of(contents.field("value"@)),
        JsonTree::Text(s) => Some(s),
        _ => None,
    }
}

/// Whether the contents of a hover answer, with the text `raw`, are Markdown: their `kind` says
/// so, and where they have none, three backticks do.
pub open spec fn is_markdown(contents: JsonTree, raw: Seq<char>) -> bool {
    match text_of(contents.field("kind"@)) {
        Some(kind) => kind == "markdown"@,
        None => has_text(raw, "```"@),
    }
}

/// The name that a line below a module path declares. On the line of the path itself only a
/// declaration behind `pub` counts.
pub open spec fn member_in_line(line: Seq<char>, is_first: bool) -> Option<Seq<char>> {
    let t = trimmed(line);
    match kind_and_name(past_prefix(t, "pub "@)) {
        Some((_, name)) => if !is_first || has_prefix(t, "pub "@) {
            Some(name)
        } else {
            None
        },
        None => if is_first {
            None
        } else {
            field_name(t)
        },
    }
}

/// The first name that `lines` declare; `is_first` says whether they start with the line of the
/// module path.
pub open spec fn first_member(lines: Seq<Seq<char>>, is_first: bool) -> Option<Seq<char>>
    decreases lines.len(),
{
    if lines.len() == 0 {
        None
    } else {
        match member_in_line(lines[0], is_first) {
            Some(name) => Some(name),
            None => first_member(lines.drop_first(), false),
        }
    }
}

/// The name of the item that a line declares by itself, functions with `()` behind it.
pub open spec fn local_name(line: Seq<char>) -> Option<Seq<char>> {
    match kind_and_name(past_prefix(line, "pub "@)) {
        Some((kind, name)) => Some(
            name + (if kind == "fn"@ {
                "()"@
            } else {
                ""@
            }),
        ),
        None => None,
    }
}

/// The qualified name of the symbol that the plain text of a hover answer shows.
pub open spec fn name_in_text(text: Seq<char>) -> Option<Seq<char>> {
    let list = line_list(text);
    let first = trimmed(list[0]);
    if list.len() == 0 {
        None
    } else if let_binding(first) is Some {
        let (name, ty) = let_binding(first)->0;
        Some("let "@ + name + ": "@ + ty)
    } else if !has_text(first, "::"@) && local_name(first) is Some {
        local_name(first)
    } else {
        match first_member(list, true) {
            Some(name) => Some(first + "::"@ + name),
            None => None,
        }
    }
}

/// The qualified name of the symbol that a hover answer shows.
pub open spec fn rust_name(hover: JsonTree) -> Option<Seq<char>> {
    match hover.field("contents"@) {
        Some(contents) => match raw_contents(contents) {
            Some(raw) => if is_markdown(contents, raw) {
                name_in_text(code_or_text(raw))
            } else {
                name_in_text(raw)
            },
            None => None,
        },
        None => None,
    }
}

/// The contents of a hover answer as one text: the items of an array below each other, of an
/// object its `value`, and anything else as JSON.
pub open spec fn contents_text(contents: JsonTree) -> Seq<char>
    decreases contents,
{
    match contents {
        JsonTree::Text(s) => s,
        JsonTree::Array(items) => joined(contents_texts(items), "\n"@),
        JsonTree::Object(_) => match text_of(contents.field("value"@)) {
            Some(value) => value,
            None => json_text(contents),
        },
        _ => json_text(contents),
    }
}

/// The texts of the items of an array of hover contents.
pub open spec fn contents_texts(items: Seq<JsonTree>) -> Seq<Seq<char>>
    decreases items,
{
    if items.len() == 0 {
        seq![]
    } else {
        contents_texts(items.drop_last()).push(contents_text(items.last()))
    }
}

/// The text of a hover answer.
pub open spec fn rust_text(hover: JsonTree) -> Option<Seq<char>> {
    match hover.field("contents"@) {
        Some(contents) => Some(contents_text(contents)),
        None => None,
    }
}

/// What a hover and a definition answer say of a symbol of Rust.
pub open spec fn rust_symbol(hover: JsonTree, definition: JsonTree) -> SymbolView {
    let (uri, line) = place_of(first_item(definition));
    SymbolView {
        qualified_name: rust_name(hover),
        kind: match text_of(field_of(hover.field("contents"@), "value"@)) {
            Some(text) => kind_in_hover(text),
            None => None,
        },
        definition_uri: uri,
        definition_line: line,
    }
}

/// Reads symbols of Rust out of the answers of rust-analyzer.
#[derive(Default)]
pub struct RustSymbolExtractor;

impl RustSymbolExtractor {
    /// The code of a Markdown text, or the text itself where it holds no code.
    pub fn strip_markdown_code_blocks(text: &str) -> (r: String)
        ensures
            r@ == code_or_text(text@),
    {
        let code: Vec<&str> = code_block_lines(text);
        if code.len() == 0 {
            text.to_string()
        } else {
            join(&code, "\n")
        }
    }

    /// A name without its generics and without what follows a name in a declaration.
    pub fn clean_symbol_name<'a>(name: &'a str) -> (r: &'a str)
        ensures
            r@ == clean_name(name@),
    {
        let set: [char; 5] = ['{', ';', ':', '(', ','];
        assert(set@ =~= name_ending());
        strip_end(take_before(name, '<'), &set)
    }

    /// The kind and the name of the item that a line declares.
    pub fn extract_kind_and_name<'a>(&self, line: &'a str) -> (r: Option<(&'a str, &'a str)>)
        ensures
            match r {
                Some((kind, name)) => kind_and_name(line@) == Some((kind@, name@)),
                None => kind_and_name(line@) is None,
            },
    {
        let parts: Vec<&'a str> = words(line);
        proof {
            lemma_views(parts@);
        }
        if parts.len() < 2 {
            return None;
        }
        let kind: &'a str = parts[0];
        if same_text(kind, "struct") || same_text(kind, "enum") || same_text(kind, "trait")
            || same_text(kind, "const") || same_text(kind, "static") {
            let name: &'a str = Self::clean_symbol_name(parts[1]);
            Some((kind, name))
        } else if same_text(kind, "type") {
            let word: &'a str = parts[1];
            let name: &'a str = if has_char(word, '<') {
                take_before(word, '<')
            } else {
                let set: [char; 2] = ['{', ';'];
                assert(set@ =~= seq!['{', ';']);
                strip_end(word, &set)
            };
            Some((kind, name))
        } else if same_text(kind, "fn") || same_text(kind, "async") {
            let at: usize = if same_text(kind, "async") && same_text(parts[1], "fn") {
                2
            } else {
                1
            };
            if at < parts.len() {
                proof {
                    reveal_strlit("fn");
                    reveal_strlit("async");
                    assert("fn"@.len() != "async"@.len());
                }
                Some(("fn", take_before(take_before(parts[at], '('), '<')))
            } else {
                None
            }
        } else {
            None
        }
    }

    /// The name and the type of the variable that a line binds with `let`.
    pub fn extract_let_binding<'a>(&self, line: &'a str) -> (r: Option<(&'a str, &'a str)>)
        ensures
            match r {
                Some((name, ty)) => let_binding(line@) == Some((name@, ty@)),
                None => let_binding(line@) is None,
            },
    {
        let rest: &'a str = match strip_prefix(trim(line), "let ") {
            Some(rest) => rest,
            None => {
                return None;
            },
        };
        let name: &'a str = trim(take_before(rest, ':'));
        let ty: &'a str = match take_after(rest, ':') {
            Some(after) => trim(after),
            None => {
                return None;
            },
        };
        if !name.is_empty() && !has_char(name, ' ') && !ty.is_empty() {
            Some((name, ty))
        } else {
            None
        }
    }

    /// The name of the field that a line declares.
    pub fn extract_field<'a>(&self, line: &'a str) -> (r: Option<&'a str>)
        ensures
            opt_str(r) == field_name(line@),
    {
        let t: &'a str = trim(line);
        if has_char(t, ':') && !starts_with(t, "fn ") && !starts_with(t, "pub fn ") {
            let name: &'a str = skip_prefix(trim(take_before(t, ':')), "pub ");
            if !name.is_empty() && !has_char(name, ' ') {
                return Some(name);
            }
        }
        None
    }

    fn kind_of_line(&self, line: &str) -> (r: Option<String>)
        ensures
            match r {
                Some(kind) => kind_in_line(line@) == Some(kind@),
                None => kind_in_line(line@) is None,
            },
    {
        let t: &str = trim(line);
        if let Some((kind, _)) = self.extract_kind_and_name(skip_prefix(t, "pub ")) {
            return Some(kind.to_string());
        }
        if self.extract_field(t).is_some() {
            return Some("field".to_string());
        }
        None
    }

    /// The kind of the symbol that a hover text shows.
    pub fn extract_kind_from_hover(&self, hover_text: &str) -> (r: Option<String>)
        ensures
            match r {
                Some(kind) => kind_in_hover(hover_text@) == Some(kind@),
                None => kind_in_hover(hover_text@) is None,
            },
    {
        let shown: String = if contains(hover_text, "```") {
            Self::strip_markdown_code_blocks(hover_text)
        } else {
            hover_text.to_string()
        };
        let all: Vec<&str> = lines(shown.as_str());
        let ghost list = line_list(shown@);
        proof {
            lemma_views(all@);
        }
        if all.len() == 0 {
            return None;
        }
        let mut i: usize = 1;
        proof {
            assert(list.skip(1) =~= list.drop_first());
        }
        while i < all.len()
            invariant
                1 <= i <= all.len(),
                all.len() == list.len(),
                forall|j: int| 0 <= j < all.len() ==> (#[trigger] all@[j])@ == list[j],
                first_kind(list.skip(i as int)) == first_kind(list.drop_first()),
                kind_in_hover(hover_text@) == first_kind(list.drop_first()),
            decreases all.len() - i,
        {
            proof {
                assert(list.skip(i as int)[0] == list[i as int]);
                assert(list.skip(i as int).drop_first() =~= list.skip(i + 1));
            }
            if let Some(kind) = self.kind_of_line(all[i]) {
                return Some(kind);
            }
            i += 1;
        }
        None
    }

    fn local_name_of(&self, line: &str) -> (r: Option<String>)
        ensures
            match r {
                Some(name) => local_name(line@) == Some(name@),
                None => local_name(line@) is None,
            },
    {
        match self.extract_kind_and_name(skip_prefix(line, "pub ")) {
            Some((kind, name)) => {
                let suffix: &str = if same_text(kind, "fn") {
                    "()"
                } else {
                    ""
                };
                let mut out: String = name.to_string();
                out.append(suffix);
                Some(out)
            },
            None => None,
        }
    }

    fn member_of_line<'a>(&self, line: &'a str, is_first: bool) -> (r: Option<&'a str>)
        ensures
            opt_str(r) == member_in_line(line@, is_first),
    {
        let t: &'a str = trim(line);
        match self.extract_kind_and_name(skip_prefix(t, "pub ")) {
            Some((_, name)) => if !is_first || starts_with(t, "pub ") {
                Some(name)
            } else {
                None
            },
            None => if is_first {
                None
            } else {
                self.extract_field(t)
            },
        }
    }

    fn first_member_of<'a>(&self, all: &Vec<&'a str>) -> (r: Option<&'a str>)
        ensures
            opt_str(r) == first_member(views(all@), true),
    {
        let ghost list = views(all@);
        let mut i: usize = 0;
        proof {
            assert(list.skip(0) =~= list);
        }
        while i < all.len()
            invariant
                i <= all.len(),
                list == views(all@),
                first_member(list.skip(i as int), i == 0) == first_member(list, true),
            decreases all.len() - i,
        {
            proof {
                assert(list.skip(i as int)[0] == all@[i as int]@);
                assert(list.skip(i as int).drop_first() =~= list.skip(i + 1));
            }
            if let Some(name) = self.member_of_line(all[i], i == 0) {
                return Some(name);
            }
            i += 1;
        }
        None
    }

    /// The qualified name of the symbol that the plain text of a hover answer shows.
    pub fn qualified_name_in_text(&self, text: &str) -> (r: Option<String>)
        ensures
            match r {
                Some(name) => name_in_text(text@) == Some(name@),
                None => name_in_text(text@) is None,
            },
    {
        let all: Vec<&str> = lines(text);
        proof {
            lemma_views(all@);
        }
        if all.len() == 0 {
            return None;
        }
        let first: &str = trim(all[0]);
        if let Some((name, ty)) = self.extract_let_binding(first) {
            let mut out: String = "let ".to_string();
            out.append(name);
            out.append(": ");
            out.append(ty);
            return Some(out);
        }
        if !contains(first, "::") {
            if let Some(name) = self.local_name_of(first) {
                return Some(name);
            }
        }
        match self.first_member_of(&all) {
            Some(name) => {
                let mut out: String = first.to_string();
                out.append("::");
                out.append(name);
                Some(out)
            },
            None => None,
        }
    }
}

/// The contents of a hover answer as one text.
pub fn normalize_contents(contents: &Json) -> (r: String)
    ensures
        r@ == contents_text(contents@),
    decreases contents,
{
    match contents {
        Json::Text(s) => s.clone(),
        Json::Array(items) => {
            let mut parts: Vec<String> = Vec::new();
            let mut i: usize = 0;
            let ghost all = contents@->Array_0;
            while i < items.len()
                invariant
                    *contents == Json::Array(*items),
                    all == contents@->Array_0,
                    all.len() == items.len(),
                    i <= items.len(),
                    string_views(parts@) == contents_texts(all.take(i as int)),
                decreases items.len() - i,
            {
                proof {
                    assert(decreases_to!(*contents => contents->Array_0));
                    assert(decreases_to!(*items => items@));
                    assert(decreases_to!(items@ => items@[i as int]));
                }
                let ghost done = string_views(parts@);
                let part: String = normalize_contents(&items[i]);
                parts.push(part);
                proof {
                    assert(string_views(parts@) =~= done.push(part@));
                    assert(all.take(i + 1).drop_last() =~= all.take(i as int));
                    assert(all.take(i + 1).last() == items@[i as int]@);
                }
                i += 1;
            }
            assert(all.take(i as int) =~= all);
            join_strings(&parts, "\n")
        },
        Json::Object(object) => {
            if let Some(value) = object.get("value") {
                if let Some(s) = value.as_str() {
                    return s.to_string();
                }
            }
            contents.to_text()
        },
        _ => contents.to_text(),
    }
}

impl SymbolExtractor for RustSymbolExtractor {
    open spec fn name_in(&self, hover: JsonTree) -> Option<Seq<char>> {
        rust_name(hover)
    }

    open spec fn text_in(&self, hover: JsonTree) -> Option<Seq<char>> {
        rust_text(hover)
    }

    open spec fn symbol_in(&self, hover: JsonTree, definition: JsonTree) -> SymbolView {
        rust_symbol(hover, definition)
    }

    fn extract_qualified_name(&self, hover_result: &Json) -> (r: Option<String>) {
        let contents: &Json = match hover_result.get("contents") {
            Some(contents) => contents,
            None => {
                return None;
            },
        };
        let raw: &str = match contents {
            Json::Object(object) => match object.get("value") {
                Some(value) => match value.as_str() {
                    Some(s) => s,
                    None => {
                        return None;
                    },
                },
                None => {
                    return None;
                },
            },
            Json::Text(s) => s.as_str(),
            _ => {
                return None;
            },
        };
        let kind: Option<&str> = match contents.get("kind") {
            Some(value) => value.as_str(),
            None => None,
        };
        let markdown: bool = match kind {
            Some(kind) => same_text(kind, "markdown"),
            None => contains(raw, "```"),
        };
        if markdown {
            let code: String = Self::strip_markdown_code_blocks(raw);
            self.qualified_name_in_text(code.as_str())
        } else {
            self.qualified_name_in_text(raw)
        }
    }

    fn extract_hover_text(&self, hover_result: &Json) -> (r: Option<String>) {
        match hover_result.get("contents") {
            Some(contents) => Some(normalize_contents(contents)),
            None => None,
        }
    }

    fn extract_symbol_info(&self, hover: &Json, definition: &Json) -> (r: SymbolInfo) {
        let qualified_name: Option<String> = self.extract_qualified_name(hover);
        let value: Option<&Json> = match hover.get("contents") {
            Some(contents) => contents.get("value"),
            None => None,
        };
        let text: Option<&str> = match value {
            Some(value) => value.as_str(),
            None => None,
        };
        let kind: Option<String> = match text {
            Some(text) => self.extract_kind_from_hover(text),
            None => None,
        };
        let (definition_uri, definition_line): (Option<String>, Option<u32>) =
            match first_of(definition) {
            Some(location) => read_location(location),
            None => (None, None),
        };
        SymbolInfo { qualified_name, kind, definition_uri, definition_line }
    }
}

/// A clean name is the start of the name, shows no generics, ends in none of the characters that
/// follow a name, and stays as it is when it is cleaned again.
pub proof fn lemma_clean_name(name: Seq<char>)
    ensures
        clean_name(name).len() <= name.len(),
        clean_name(name) == name.take(clean_name(name).len() as int),
        !clean_name(name).contains('<'),
        clean_name(name).len() > 0 ==> !name_ending().contains(clean_name(name).last()),
        clean_name(clean_name(name)) == clean_name(name),
{
    let before = before_char(name, '<');
    let clean = clean_name(name);
    lemma_before_char(name, '<');
    lemma_stripped_end_facts(before, name_ending());
    assert(clean =~= name.take(clean.len() as int));
    assert forall|i: int| 0 <= i < clean.len() implies clean[i] != '<' by {
        assert(before.contains(before[i]));
    }
    lemma_before_char(clean, '<');
}

/// The first line that declares something gives the name, whatever the lines behind it are; without
/// one there is no name.
pub proof fn lemma_first_declaration_gives_the_name(
    lines: Seq<Seq<char>>,
    is_first: bool,
    k: int,
)
    requires
        0 <= k <= lines.len(),
        forall|j: int|
            0 <= j < k ==> member_in_line(#[trigger] lines[j], is_first && j == 0) is None,
        k < lines.len() ==> member_in_line(lines[k], is_first && k == 0) is Some,
    ensures
        first_member(lines, is_first) == if k < lines.len() {
            member_in_line(lines[k], is_first && k == 0)
        } else {
            None
        },
    decreases k,
{
    if k > 0 {
        let rest = lines.drop_first();
        assert(member_in_line(lines[0], is_first) is None);
        assert forall|j: int| 0 <= j < k - 1 implies member_in_line(
            #[trigger] rest[j],
            false && j == 0,
        ) is None by {
            assert(rest[j] == lines[j + 1]);
        }
        lemma_first_declaration_gives_the_name(rest, false, k - 1);
    }
}

proof fn lemma_more_lines(lines: Seq<Seq<char>>, more: Seq<Seq<char>>, is_first: bool)
    requires
        first_member(lines, is_first) is Some,
    ensures
        first_member(lines + more, is_first) == first_member(lines, is_first),
    decreases lines.len(),
{
    if lines.len() > 0 && member_in_line(lines[0], is_first) is None {
        lemma_more_lines(lines.drop_first(), more, false);
        assert((lines + more).drop_first() =~= lines.drop_first() + more);
    }
}

/// A symbol below a module path is named by the first line that declares something: its name stands
/// behind that path, whatever the lines behind it are.
pub proof fn lemma_symbols_are_named_by_their_first_declaration(
    text: Seq<char>,
    k: int,
    name: Seq<char>,
)
    requires
        0 <= k < line_list(text).len(),
        let_binding(trimmed(line_list(text)[0])) is None,
        has_text(trimmed(line_list(text)[0]), "::"@) || local_name(trimmed(line_list(text)[0]))
            is None,
        forall|j: int|
            0 <= j < k ==> member_in_line(#[trigger] line_list(text)[j], j == 0) is None,
        member_in_line(line_list(text)[k], k == 0) == Some(name),
    ensures
        name_in_text(text) == Some(trimmed(line_list(text)[0]) + "::"@ + name),
{
    let lines = line_list(text);
    assert forall|j: int| 0 <= j < k implies member_in_line(
        #[trigger] lines[j],
        true && j == 0,
    ) is None by {
        assert(member_in_line(line_list(text)[j], j == 0) is None);
    }
    lemma_first_declaration_gives_the_name(lines, true, k);
}

/// Lines that follow a text that names a symbol do not change the name.
pub proof fn lemma_lines_behind_do_not_change_the_name(
    text: Seq<char>,
    longer: Seq<char>,
    more: Seq<Seq<char>>,
)
    requires
        name_in_text(text) is Some,
        line_list(longer) == line_list(text) + more,
    ensures
        name_in_text(longer) == name_in_text(text),
{
    let lines = line_list(text);
    assert(lines.len() > 0);
    assert((lines + more)[0] == lines[0]);
    if first_member(lines, true) is Some {
        lemma_more_lines(lines, more, true);
    }
}

/// A text without a declaration names no symbol, nor does an empty one.
pub proof fn lemma_texts_without_declarations_name_nothing(text: Seq<char>)
    requires
        line_list(text).len() > 0 ==> {
            &&& let_binding(trimmed(line_list(text)[0])) is None
            &&& has_text(trimmed(line_list(text)[0]), "::"@) || local_name(
                trimmed(line_list(text)[0]),
            ) is None
        },
        forall|j: int|
            0 <= j < line_list(text).len() ==> member_in_line(#[trigger] line_list(text)[j], j == 0)
                is None,
    ensures
        name_in_text(text) is None,
{
    let lines = line_list(text);
    assert forall|j: int| 0 <= j < lines.len() implies member_in_line(
        #[trigger] lines[j],
        true && j == 0,
    ) is None by {
        assert(member_in_line(line_list(text)[j], j == 0) is None);
    }
    lemma_first_declaration_gives_the_name(lines, true, lines.len() as int);
}

/// A variable that is bound on the first line is shown with its type, and an item that is declared
/// there without a module path by its name, a function with parentheses behind it.
pub proof fn lemma_local_symbols_are_named_by_the_first_line(text: Seq<char>)
    requires
        line_list(text).len() > 0,
    ensures
        ({
            let first = trimmed(line_list(text)[0]);
            &&& let_binding(first) matches Some((name, ty)) ==> name_in_text(text) == Some(
                "let "@ + name + ": "@ + ty,
            )
            &&& let_binding(first) is None && !has_text(first, "::"@) ==> (kind_and_name(
                past_prefix(first, "pub "@),
            ) matches Some((kind, name)) ==> name_in_text(text) == Some(
                if kind == "fn"@ {
                    name + "()"@
                } else {
                    name
                },
            ))
        }),
{
    reveal_strlit("");
    let first = trimmed(line_list(text)[0]);
    if let Some((kind, name)) = kind_and_name(past_prefix(first, "pub "@)) {
        assert(name + ""@ =~= name);
    }
}

/// What follows a name where it is declared: some of the characters, or generics behind them.
pub open spec fn is_ending(tail: Seq<char>, set: Seq<char>) -> bool {
    let n = before_char(tail, '<').len();
    forall|i: int| 0 <= i < n ==> set.contains(#[trigger] tail[i])
}

proof fn lemma_name_and_ending(name: Seq<char>, tail: Seq<char>, set: Seq<char>)
    requires
        !name.contains('<'),
        name.len() > 0 ==> !set.contains(name.last()),
        is_ending(tail, set),
    ensures
        stripped_end(before_char(name + tail, '<'), set) == name,
{
    let cut = before_char(tail, '<');
    let whole = name + tail;
    lemma_before_char(tail, '<');
    assert(before_char(whole, '<') =~= name + cut) by {
        if tail.contains('<') {
            lemma_char_position_facts(tail, '<');
            let n = cut.len() as int;
            assert(tail =~= cut + seq!['<'] + tail.skip(n + 1));
            assert(!(name + cut).contains('<')) by {
                if (name + cut).contains('<') {
                    let i = choose|i: int| 0 <= i < (name + cut).len() && (name + cut)[i] == '<';
                    if i < name.len() {
                        assert(name.contains(name[i]));
                    } else {
                        assert(cut.contains(cut[i - name.len()]));
                    }
                }
            }
            assert(whole =~= (name + cut) + seq!['<'] + tail.skip(n + 1));
            lemma_split_at_char(name + cut, '<', tail.skip(n + 1));
        } else {
            assert(!whole.contains('<')) by {
                if whole.contains('<') {
                    let i = choose|i: int| 0 <= i < whole.len() && whole[i] == '<';
                    if i < name.len() {
                        assert(name.contains(name[i]));
                    } else {
                        assert(tail.contains(tail[i - name.len()]));
                    }
                }
            }
            lemma_before_char(whole, '<');
        }
    }
    let kept = name + cut;
    assert forall|i: int| name.len() <= i < kept.len() implies set.contains(#[trigger] kept[i]) by {
        assert(kept[i] == tail[i - name.len()]);
    }
    lemma_stripped_end(kept, set, name.len() as int);
    assert(kept.take(name.len() as int) =~= name);
}

/// A structure, an enumeration, a trait, a constant or a static is named by the word behind the one
/// that says so, without its generics and without what ends a name.
pub proof fn lemma_items_are_named_by_the_second_word(
    line: Seq<char>,
    name: Seq<char>,
    tail: Seq<char>,
)
    requires
        word_list(line).len() >= 2,
        word_list(line)[1] == name + tail,
        !name.contains('<'),
        name.len() > 0 ==> !seq!['{', ';', ':', '(', ','].contains(name.last()),
        is_ending(tail, seq!['{', ';', ':', '(', ',']),
    ensures
        ({
            let kind = word_list(line)[0];
            kind == "struct"@ || kind == "enum"@ || kind == "trait"@ || kind == "const"@ || kind
                == "static"@ ==> kind_and_name(line) == Some((kind, name))
        }),
{
    lemma_name_and_ending(name, tail, seq!['{', ';', ':', '(', ',']);
}

proof fn lemma_alias_with_generics(name: Seq<char>, tail: Seq<char>)
    requires
        !name.contains('<'),
        tail.len() > 0,
        tail[0] == '<',
    ensures
        alias_name(name + tail) == name,
{
    let word = name + tail;
    assert(word =~= name + seq!['<'] + tail.skip(1));
    lemma_split_at_char(name, '<', tail.skip(1));
    assert(word[name.len() as int] == '<');
    assert(word.contains('<'));
}

proof fn lemma_alias_without_generics(name: Seq<char>, tail: Seq<char>)
    requires
        !name.contains('<'),
        !tail.contains('<'),
        is_ending(tail, seq!['{', ';']),
        name.len() > 0 ==> !seq!['{', ';'].contains(name.last()),
    ensures
        alias_name(name + tail) == name,
{
    let word = name + tail;
    let set = seq!['{', ';'];
    lemma_before_char(tail, '<');
    assert(!word.contains('<')) by {
        if word.contains('<') {
            let i = choose|i: int| 0 <= i < word.len() && word[i] == '<';
            if i < name.len() {
                assert(name.contains(name[i]));
            } else {
                assert(tail.contains(tail[i - name.len()]));
            }
        }
    }
    assert forall|i: int| name.len() <= i < word.len() implies set.contains(#[trigger] word[i]) by {
        assert(word[i] == tail[i - name.len()]);
        assert(set.contains(tail[i - name.len()]));
    }
    if name.len() > 0 {
        assert(word[name.len() - 1] == name.last());
    }
    lemma_stripped_end(word, set, name.len() as int);
    assert(word.take(name.len() as int) =~= name);
}

proof fn lemma_aliases_are_no_plain_items()
    ensures
        !is_plain_kind("type"@),
{
    reveal_strlit("type");
    reveal_strlit("enum");
    reveal_strlit("struct");
    reveal_strlit("trait");
    reveal_strlit("const");
    reveal_strlit("static");
    assert("type"@[0] == 't' && "type"@.len() == 4);
    assert("enum"@[0] == 'e');
    assert("struct"@.len() == 6 && "static"@.len() == 6);
    assert("trait"@.len() == 5 && "const"@.len() == 5);
}

/// A type alias is named by the word behind `type`, without its generics, or without the brace or
/// the semicolon that ends it.
pub proof fn lemma_aliases_are_named_by_the_second_word(
    line: Seq<char>,
    name: Seq<char>,
    tail: Seq<char>,
)
    requires
        word_list(line).len() >= 2,
        word_list(line)[0] == "type"@,
        word_list(line)[1] == name + tail,
        !name.contains('<'),
        tail.len() > 0 && tail[0] == '<' || !tail.contains('<') && is_ending(tail, seq!['{', ';'])
            && (name.len() > 0 ==> !seq!['{', ';'].contains(name.last())),
    ensures
        kind_and_name(line) == Some(("type"@, name)),
{
    lemma_aliases_are_no_plain_items();
    if tail.len() > 0 && tail[0] == '<' {
        lemma_alias_with_generics(name, tail);
    } else {
        lemma_alias_without_generics(name, tail);
    }
}

/// A function is named by the word behind `fn`, up to its parameters or its generics; `async` may
/// precede both.
pub proof fn lemma_functions_are_named_by_the_word_behind(
    line: Seq<char>,
    name: Seq<char>,
    tail: Seq<char>,
)
    requires
        !name.contains('('),
        !name.contains('<'),
        tail.len() > 0 ==> tail[0] == '(' || tail[0] == '<',
    ensures
        ({
            let words = word_list(line);
            &&& words.len() >= 2 && words[0] == "fn"@ && words[1] == name + tail
                ==> kind_and_name(line) == Some(("fn"@, name))
            &&& words.len() >= 3 && words[0] == "async"@ && words[1] == "fn"@ && words[2] == name
                + tail ==> kind_and_name(line) == Some(("fn"@, name))
            &&& words.len() >= 2 && words[0] == "async"@ && words[1] != "fn"@ && words[1] == name
                + tail ==> kind_and_name(line) == Some(("fn"@, name))
            &&& words.len() == 2 && words[0] == "async"@ && words[1] == "fn"@ ==> kind_and_name(
                line,
            ) is None
        }),
{
    let word = name + tail;
    reveal_strlit("fn");
    reveal_strlit("async");
    reveal_strlit("type");
    reveal_strlit("enum");
    reveal_strlit("struct");
    reveal_strlit("trait");
    reveal_strlit("const");
    reveal_strlit("static");
    assert("async"@[0] == 'a' && "trait"@[0] == 't' && "const"@[0] == 'c');
    assert(before_char(before_char(word, '('), '<') == name) by {
        if tail.len() == 0 {
            assert(word =~= name);
            lemma_before_char(name, '(');
            lemma_before_char(name, '<');
        } else if tail[0] == '(' {
            assert(word =~= name + seq!['('] + tail.skip(1));
            lemma_split_at_char(name, '(', tail.skip(1));
            lemma_before_char(name, '<');
        } else {
            let cut = before_char(word, '(');
            lemma_before_char(word, '(');
            lemma_char_position_facts(word, '(');
            assert(cut.len() > name.len()) by {
                if cut.len() <= name.len() {
                    assert(cut.len() < word.len());
                    assert(word[cut.len() as int] == '(');
                    if cut.len() < name.len() {
                        assert(name.contains(name[cut.len() as int]));
                    }
                }
            }
            assert(cut =~= name + seq!['<'] + cut.skip(name.len() as int + 1));
            lemma_split_at_char(name, '<', cut.skip(name.len() as int + 1));
        }
    }
}

/// Nothing else is an item: a line with less than two words, or one that starts with another word.
pub proof fn lemma_other_lines_declare_no_items(line: Seq<char>)
    ensures
        word_list(line).len() < 2 ==> kind_and_name(line) is None,
        kind_and_name(line) matches Some((kind, _)) ==> {
            let word = word_list(line)[0];
            &&& kind == "fn"@ ==> word == "fn"@ || word == "async"@
            &&& kind != "fn"@ ==> word == kind && (kind == "struct"@ || kind == "enum"@ || kind
                == "trait"@ || kind == "const"@ || kind == "static"@ || kind == "type"@)
        },
{
    reveal_strlit("fn");
    reveal_strlit("type");
    reveal_strlit("enum");
    reveal_strlit("struct");
    reveal_strlit("trait");
    reveal_strlit("const");
    reveal_strlit("static");
}

proof fn lemma_is_trimmed(s: Seq<char>)
    requires
        s.len() > 0,
        !is_whitespace(s[0]),
        !is_whitespace(s.last()),
    ensures
        trimmed(s) == s,
{
    lemma_trimmed_inner(Seq::empty(), s, Seq::empty());
    assert(Seq::<char>::empty() + s + Seq::<char>::empty() =~= s);
}

/// A text whose first word, up to a colon, has no space in it does not start like a function.
proof fn lemma_is_no_function(t: Seq<char>, shift: int, n: int)
    requires
        shift == 0 || shift == 4 && t.take(4) == "pub "@,
        shift < n < t.len(),
        t[n] == ':',
        forall|i: int| shift <= i < n ==> #[trigger] t[i] != ' ',
    ensures
        !has_prefix(t, "fn "@),
        !has_prefix(t, "pub fn "@),
{
    reveal_strlit("pub ");
    reveal_strlit("fn ");
    reveal_strlit("pub fn ");
    assert("fn "@[2] == ' ' && "fn "@[1] == 'n' && "fn "@[0] == 'f');
    assert("pub fn "@[0] == 'p' && "pub fn "@[3] == ' ' && "pub fn "@[4] == 'f');
    assert("pub fn "@[1] == 'u' && "pub fn "@[2] == 'b' && "pub fn "@[5] == 'n');
    assert("pub fn "@[6] == ' ');
    if shift == 4 {
        assert(t.take(4)[0] == t[0] && "pub "@[0] == 'p');
    }
    if has_prefix(t, "fn "@) {
        let start = t.subrange(0, 3);
        assert(start[0] == t[0] && start[1] == t[1] && start[2] == t[2]);
        assert(shift == 0);
        if n > 2 {
            assert(t[2] != ' ');
        }
    }
    if has_prefix(t, "pub fn "@) {
        let start = t.subrange(0, 7);
        assert(start[0] == t[0] && start[1] == t[1] && start[2] == t[2] && start[3] == t[3]);
        assert(start[4] == t[4] && start[5] == t[5] && start[6] == t[6]);
        if shift == 0 {
            if n > 3 {
                assert(t[3] != ' ');
            }
        } else if n > 6 {
            assert(t[6] != ' ');
        }
    }
}

proof fn lemma_bare_field(t: Seq<char>, name: Seq<char>, rest: Seq<char>)
    requires
        name.len() > 0,
        !name.contains(' '),
        !name.contains(':'),
        !is_whitespace(name[0]),
        !is_whitespace(name.last()),
        trimmed(t) == t,
        t == name + seq![':'] + rest,
    ensures
        field_name(t) == Some(name),
{
    let n = name.len() as int;
    assert forall|i: int| 0 <= i < n implies #[trigger] t[i] != ' ' by {
        assert(t[i] == name[i]);
        assert(name.contains(name[i]));
    }
    assert(t[n] == ':');
    assert(t.contains(':'));
    lemma_is_no_function(t, 0, n);
    lemma_split_at_char(name, ':', rest);
    lemma_is_trimmed(name);
    reveal_strlit("pub ");
    assert("pub "@[3] == ' ');
    if has_prefix(name, "pub "@) {
        assert(name.subrange(0, 4)[3] == name[3]);
        assert(name.contains(name[3]));
    }
}

proof fn lemma_public_field(t: Seq<char>, name: Seq<char>, rest: Seq<char>)
    requires
        name.len() > 0,
        !name.contains(' '),
        !name.contains(':'),
        !is_whitespace(name[0]),
        !is_whitespace(name.last()),
        trimmed(t) == t,
        t == "pub "@ + name + seq![':'] + rest,
    ensures
        field_name(t) == Some(name),
        has_prefix(t, "pub "@),
{
    let front = "pub "@ + name;
    let n = front.len() as int;
    reveal_strlit("pub ");
    assert("pub "@[0] == 'p' && "pub "@[1] == 'u' && "pub "@[2] == 'b' && "pub "@[3] == ' ');
    assert(t.take(4) =~= "pub "@);
    assert(t.subrange(0, 4) =~= "pub "@);
    assert forall|i: int| 4 <= i < n implies #[trigger] t[i] != ' ' by {
        assert(t[i] == name[i - 4]);
        assert(name.contains(name[i - 4]));
    }
    assert(t[n] == ':');
    assert(t.contains(':'));
    lemma_is_no_function(t, 4, n);
    assert(!front.contains(':')) by {
        if front.contains(':') {
            let i = choose|i: int| 0 <= i < front.len() && front[i] == ':';
            if i >= 4 {
                assert(name.contains(name[i - 4]));
            }
        }
    }
    lemma_split_at_char(front, ':', rest);
    assert(front[0] == 'p');
    assert(front.last() == name.last());
    lemma_is_trimmed(front);
    lemma_texts_stand_in_others(Seq::empty(), "pub "@, name);
}

/// A field is named by what precedes its colon, behind `pub` or without it.
pub proof fn lemma_fields_are_named_before_the_colon(
    line: Seq<char>,
    name: Seq<char>,
    rest: Seq<char>,
)
    requires
        name.len() > 0,
        !name.contains(' '),
        !name.contains(':'),
        !is_whitespace(name[0]),
        !is_whitespace(name.last()),
        trimmed(line) == name + seq![':'] + rest || trimmed(line) == "pub "@ + name + seq![':']
            + rest,
    ensures
        field_name(line) == Some(name),
        kind_and_name(past_prefix(trimmed(line), "pub "@)) is None ==> {
            &&& member_in_line(line, false) == Some(name)
            &&& kind_in_line(line) == Some("field"@)
        },
        member_in_line(line, true) is Some ==> has_prefix(trimmed(line), "pub "@),
{
    let t = trimmed(line);
    lemma_trimmed_twice(line);
    if t == name + seq![':'] + rest {
        lemma_bare_field(t, name, rest);
    } else {
        lemma_public_field(t, name, rest);
    }
}

/// A variable is bound by `let`: its name stands before the first colon and its type behind it.
pub proof fn lemma_variables_are_bound_by_let(
    line: Seq<char>,
    name: Seq<char>,
    ty: Seq<char>,
)
    requires
        name.len() > 0,
        !name.contains(' '),
        !name.contains(':'),
        !is_whitespace(name[0]),
        !is_whitespace(name.last()),
        trimmed(ty).len() > 0,
        trimmed(line) == "let "@ + (name + seq![':'] + ty),
    ensures
        let_binding(line) == Some((name, trimmed(ty))),
{
    lemma_texts_stand_in_others(Seq::empty(), "let "@, name + seq![':'] + ty);
    lemma_split_at_char(name, ':', ty);
    lemma_is_trimmed(name);
}

/// A line that starts with anything else than `let`, or that has no type, binds no variable. A line
/// without a colon, or one that starts like a function, declares no field.
pub proof fn lemma_other_lines_bind_nothing(line: Seq<char>)
    ensures
        let_binding(line) matches Some((name, ty)) ==> {
            &&& has_prefix(trimmed(line), "let "@)
            &&& name.len() > 0
            &&& ty.len() > 0
            &&& !name.contains(' ')
            &&& line.contains(':')
        },
        field_name(line) matches Some(name) ==> {
            &&& name.len() > 0
            &&& !name.contains(' ')
            &&& line.contains(':')
            &&& !has_prefix(trimmed(line), "fn "@)
            &&& !has_prefix(trimmed(line), "pub fn "@)
        },
{
    lemma_trimmed_facts(line);
    let t = trimmed(line);
    if has_prefix(t, "let "@) {
        let rest = t.skip("let "@.len() as int);
        lemma_char_position_facts(rest, ':');
        if let Some(after) = after_char(rest, ':') {
            let i = char_position(rest, ':') as int;
            assert(rest[i] == ':');
            assert(t[i + "let "@.len()] == ':');
            assert(t.contains(':'));
        }
    }
}

/// The kind of a symbol is that of the first declaration below the first line of its hover text,
/// whatever the lines behind it are.
pub proof fn lemma_first_declaration_gives_the_kind(lines: Seq<Seq<char>>, k: int)
    requires
        0 <= k <= lines.len(),
        forall|j: int| 0 <= j < k ==> kind_in_line(#[trigger] lines[j]) is None,
        k < lines.len() ==> kind_in_line(lines[k]) is Some,
    ensures
        first_kind(lines) == if k < lines.len() {
            kind_in_line(lines[k])
        } else {
            None
        },
    decreases k,
{
    if k > 0 {
        let rest = lines.drop_first();
        assert(kind_in_line(lines[0]) is None);
        assert forall|j: int| 0 <= j < k - 1 implies kind_in_line(#[trigger] rest[j]) is None by {
            assert(rest[j] == lines[j + 1]);
        }
        lemma_first_declaration_gives_the_kind(rest, k - 1);
    }
}

/// The kind that a hover text shows: it does not depend on the first line, the module path, and of
/// a text with code blocks only the code counts.
pub proof fn lemma_kinds_stand_below_the_first_line(
    text: Seq<char>,
    path: Seq<char>,
    below: Seq<Seq<char>>,
)
    requires
        !has_text(text, "```"@),
        line_list(text) == seq![path] + below,
    ensures
        kind_in_hover(text) == first_kind(below),
{
    assert((seq![path] + below).drop_first() =~= below);
}

/// The kind of what a text with code blocks shows is that of its code.
pub proof fn lemma_kinds_stand_in_the_code(text: Seq<char>, below: Seq<Seq<char>>, path: Seq<char>)
    requires
        has_text(text, "```"@),
        code_lines(line_list(text), false) == seq![path] + below,
    ensures
        kind_in_hover(text) == first_kind(below),
{
    lemma_code_holds_no_blocks(text);
    assert((seq![path] + below).drop_first() =~= below);
}

/// The kind of a line: of an item its own, with `pub` before it or without.
pub proof fn lemma_items_have_their_kinds(line: Seq<char>)
    ensures
        kind_and_name(past_prefix(trimmed(line), "pub "@)) matches Some((kind, name)) ==> {
            &&& kind_in_line(line) == Some(kind)
            &&& member_in_line(line, false) == Some(name)
            &&& member_in_line(line, true) == if has_prefix(trimmed(line), "pub "@) {
                Some(name)
            } else {
                None
            }
        },
        kind_and_name(past_prefix(trimmed(line), "pub "@)) is None && field_name(trimmed(line))
            is None ==> kind_in_line(line) is None && member_in_line(line, false) is None,
        kind_and_name(past_prefix(trimmed(line), "pub "@)) is None ==> member_in_line(line, true)
            is None,
{
}

/// A hover answer is read as what it says that it is: as Markdown by its code, else as it stands.
/// Without a word on that, three backticks tell.
pub proof fn lemma_hover_answers_are_read_as_they_say(hover: JsonTree, contents: JsonTree)
    requires
        hover.field("contents"@) == Some(contents),
    ensures
        contents matches JsonTree::Text(text) ==> rust_name(hover) == if has_text(text, "```"@) {
            name_in_text(code_or_text(text))
        } else {
            name_in_text(text)
        },
        contents is Object ==> (contents.field("value"@) matches Some(JsonTree::Text(text)) ==> {
            &&& contents.field("kind"@) == Some(JsonTree::Text("markdown"@)) ==> rust_name(hover)
                == name_in_text(code_or_text(text))
            &&& (contents.field("kind"@) matches Some(JsonTree::Text(kind)) ==> kind != "markdown"@
                ==> rust_name(hover) == name_in_text(text))
            &&& text_of(contents.field("kind"@)) is None && !has_text(text, "```"@) ==> rust_name(
                hover,
            ) == name_in_text(text)
            &&& text_of(contents.field("kind"@)) is None && has_text(text, "```"@) ==> rust_name(
                hover,
            ) == name_in_text(code_or_text(text))
        }),
        contents is Object && text_of(contents.field("value"@)) is None ==> rust_name(hover) is None,
        !(contents is Object || contents is Text) ==> rust_name(hover) is None,
{
}

/// A hover answer without contents shows neither a name nor a text.
pub proof fn lemma_hover_answers_without_contents(hover: JsonTree)
    requires
        hover.field("contents"@) is None,
    ensures
        rust_name(hover) is None,
        rust_text(hover) is None,
{
}

/// The text of a hover answer: a text itself, of an object its value, of an array the texts of its
/// items, each below the one before it, and of anything else what is written of it.
pub proof fn lemma_hover_texts(hover: JsonTree, contents: JsonTree)
    requires
        hover.field("contents"@) == Some(contents),
    ensures
        contents matches JsonTree::Text(text) ==> rust_text(hover) == Some(text),
        contents is Object ==> (contents.field("value"@) matches Some(JsonTree::Text(text))
            ==> rust_text(hover) == Some(text)),
        contents is Object && !(contents.field("value"@) matches Some(JsonTree::Text(_)))
            ==> rust_text(hover) == Some(json_text(contents)),
        !(contents is Text || contents is Object || contents is Array) ==> rust_text(hover)
            == Some(json_text(contents)),
        contents matches JsonTree::Array(items) ==> exists|texts: Seq<Seq<char>>|
            {
                &&& rust_text(hover) == Some(#[trigger] joined(texts, "\n"@))
                &&& texts.len() == items.len()
                &&& forall|i: int|
                    0 <= i < items.len() ==> #[trigger] texts[i] == contents_text(items[i])
            },
{
    if let JsonTree::Array(items) = contents {
        lemma_contents_texts(items);
        let texts = contents_texts(items);
        assert(rust_text(hover) == Some(joined(texts, "\n"@)));
    }
}

proof fn lemma_contents_texts(items: Seq<JsonTree>)
    ensures
        contents_texts(items).len() == items.len(),
        forall|i: int|
            0 <= i < items.len() ==> #[trigger] contents_texts(items)[i] == contents_text(items[i]),
    decreases items.len(),
{
    if items.len() > 0 {
        let before = items.drop_last();
        lemma_contents_texts(before);
        assert forall|i: int| 0 <= i < items.len() implies #[trigger] contents_texts(items)[i]
            == contents_text(items[i]) by {
            if i < before.len() {
                assert(contents_texts(items)[i] == contents_texts(before)[i]);
                assert(before[i] == items[i]);
            }
        }
    }
}

/// A symbol of Rust is defined where the first location of the definition answer says, whatever the
/// others are; its name and its kind are those of the hover answer.
pub proof fn lemma_rust_symbols_are_defined_at_the_first_location(
    hover: JsonTree,
    location: JsonTree,
    others: Seq<JsonTree>,
)
    ensures
        ({
            let symbol = rust_symbol(hover, JsonTree::Array(seq![location] + others));
            &&& symbol.definition_uri == location_uri(location)
            &&& symbol.definition_line == location_line(location)
            &&& symbol.qualified_name == rust_name(hover)
            &&& symbol.kind == match field_of(hover.field("contents"@), "value"@) {
                Some(JsonTree::Text(text)) => kind_in_hover(text),
                _ => None,
            }
        }),
        rust_symbol(hover, JsonTree::Array(seq![])).definition_uri is None,
        rust_symbol(hover, JsonTree::Null).definition_uri is None,
        rust_symbol(hover, JsonTree::Null).definition_line is None,
        rust_symbol(hover, JsonTree::Null).qualified_name == rust_name(hover),
{
}

/// White space between the name of a field and its colon does not count.
pub proof fn lemma_space_before_the_colon_does_not_count(
    line: Seq<char>,
    name: Seq<char>,
    space: Seq<char>,
    rest: Seq<char>,
)
    requires
        name.len() > 0,
        !name.contains(' '),
        !name.contains(':'),
        !is_whitespace(name[0]),
        !is_whitespace(name.last()),
        forall|i: int| 0 <= i < space.len() ==> is_whitespace(space[i]),
        trimmed(line) == name + space + seq![':'] + rest,
        !has_prefix(trimmed(line), "fn "@),
        !has_prefix(trimmed(line), "pub fn "@),
        !has_prefix(name, "pub "@),
    ensures
        field_name(line) == Some(name),
{
    let front = name + space;
    let t = trimmed(line);
    assert(!front.contains(':')) by {
        if front.contains(':') {
            let i = choose|i: int| 0 <= i < front.len() && front[i] == ':';
            if i < name.len() {
                assert(name.contains(name[i]));
            } else {
                assert(is_whitespace(space[i - name.len()]));
            }
        }
    }
    lemma_split_at_char(front, ':', rest);
    assert(t[front.len() as int] == ':');
    lemma_trimmed_inner(Seq::empty(), name, space);
    assert(Seq::<char>::empty() + name + space =~= front);
}

/// A hover text without lines, or with one alone, shows no kind.
pub proof fn lemma_single_lines_show_no_kind(text: Seq<char>)
    requires
        !has_text(text, "```"@),
        line_list(text).len() <= 1,
    ensures
        kind_in_hover(text) is None,
{
}

} // verus!
