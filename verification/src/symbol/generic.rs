//! Symbols of languages other than Rust.

use vstd::prelude::*;
use vstd::string::*;

use crate::json::{text_of, Json, JsonTree};
use crate::symbol::extractor::{
    definition_place, extract_definition_location, location_line, location_uri, place_of,
    SymbolExtractor,
};
use crate::symbol::types::{SymbolInfo, SymbolView};
use crate::text::{
    before_char, char_position, has_prefix, join, join_strings, joined, lemma_before_char,
    lemma_before_char_behind, lemma_char_position_facts, lemma_split_at_char,
    lemma_texts_stand_in_others, lemma_views, line_list, lines, opt_view, past_prefix, same_text,
    skip_prefix, starts_with, string_views, strip_prefix, take_before, trim, trimmed, views,
    word_list, words,
};

verus! {

/// The text of hover contents: of an object its `value`, of an array the texts of its items below
/// each other.
pub open spec fn shown_text(contents: JsonTree) -> Option<Seq<char>>
    decreases contents,
{
    match contents {
        JsonTree::Text(s) => Some(s),
        JsonTree::Object(_) => text_of(contents.field("value"@)),
        JsonTree::Array(items) => if shown_texts(items).len() == 0 {
            None
        } else {
            Some(joined(shown_texts(items), "\n"@))
        },
        _ => None,
    }
}

/// The texts of the items of an array of hover contents that have one.
pub open spec fn shown_texts(items: Seq<JsonTree>) -> Seq<Seq<char>>
    decreases items,
{
    if items.len() == 0 {
        seq![]
    } else {
        match shown_text(items.last()) {
            Some(text) => shown_texts(items.drop_last()).push(text),
            None => shown_texts(items.drop_last()),
        }
    }
}

/// The index of the first of `lines`, from `from` on, that holds three backticks and nothing else;
/// the number of lines where there is none.
pub open spec fn closing_fence(lines: Seq<Seq<char>>, from: nat) -> nat
    decreases lines.len() - from,
{
    if from >= lines.len() {
        lines.len()
    } else if trimmed(lines[from as int]) == "```"@ {
        from
    } else {
        closing_fence(lines, from + 1)
    }
}

/// The code block that a text starts with, where it is closed and not empty; else the text without
/// the white space around it.
pub open spec fn leading_code(text: Seq<char>) -> Seq<char> {
    let t = trimmed(text);
    let list = line_list(t);
    let end = closing_fence(list, 1);
    if has_prefix(t, "```"@) && 1 < end < list.len() {
        joined(list.subrange(1, end as int), "\n"@)
    } else {
        t
    }
}

/// The first of `lines` that is not blank, without the white space around it.
pub open spec fn first_filled(lines: Seq<Seq<char>>) -> Option<Seq<char>>
    decreases lines.len(),
{
    if lines.len() == 0 {
        None
    } else if trimmed(lines[0]).len() > 0 {
        Some(trimmed(lines[0]))
    } else {
        first_filled(lines.drop_first())
    }
}

/// A line of TypeScript without the remark in parentheses at its start.
pub open spec fn past_remark(line: Seq<char>) -> Seq<char> {
    if has_prefix(line, "(property)"@) {
        trimmed(line.skip("(property)"@.len() as int))
    } else if has_prefix(line, "(method)"@) {
        trimmed(line.skip("(method)"@.len() as int))
    } else if has_prefix(line, "(alias)"@) {
        trimmed(line.skip("(alias)"@.len() as int))
    } else if has_prefix(line, "(type alias)"@) {
        trimmed(line.skip("(type alias)"@.len() as int))
    } else if has_prefix(line, "(parameter)"@) {
        trimmed(line.skip("(parameter)"@.len() as int))
    } else if has_prefix(line, "(local var)"@) {
        trimmed(line.skip("(local var)"@.len() as int))
    } else if has_prefix(line, "(local const)"@) {
        trimmed(line.skip("(local const)"@.len() as int))
    } else {
        line
    }
}

/// The kind that a word of TypeScript declares.
pub open spec fn ts_kind(word: Seq<char>) -> Option<Seq<char>> {
    if word == "const"@ || word == "let"@ || word == "var"@ {
        Some("const"@)
    } else if word == "function"@ || word == "async"@ {
        Some("function"@)
    } else if word == "class"@ || word == "interface"@ || word == "type"@ || word == "enum"@ || word
        == "namespace"@ {
        Some(word)
    } else {
        None
    }
}

/// What precedes the type, the parameters and the generics of a name of TypeScript.
pub open spec fn ts_name(word: Seq<char>) -> Seq<char> {
    before_char(before_char(before_char(word, ':'), '('), '<')
}

/// The symbol that a line of TypeScript or JavaScript shows.
pub open spec fn ts_symbol(line: Seq<char>) -> Option<Seq<char>> {
    let shown = past_remark(line);
    let list = word_list(shown);
    if list.len() == 0 {
        None
    } else {
        match ts_kind(list[0]) {
            Some(kind) => Some(
                kind + " "@ + (if list.len() > 1 {
                    ts_name(list[1])
                } else {
                    shown
                }),
            ),
            None => Some(ts_name(list[0])),
        }
    }
}

/// The symbol that a line of Python shows.
pub open spec fn python_symbol(line: Seq<char>) -> Option<Seq<char>> {
    let list = word_list(line);
    if list.len() == 0 {
        None
    } else if list[0] == "def"@ || list[0] == "async"@ {
        let at = if list[0] == "async"@ {
            2int
        } else {
            1int
        };
        if at < list.len() {
            Some("def "@ + before_char(list[at], '('))
        } else {
            None
        }
    } else if list[0] == "class"@ {
        if list.len() > 1 {
            Some("class "@ + before_char(before_char(list[1], '('), ':'))
        } else {
            None
        }
    } else {
        Some(trimmed(before_char(trimmed(past_prefix(line, "(variable)"@)), ':')))
    }
}

/// The symbol that a line of Go shows.
pub open spec fn go_symbol(line: Seq<char>) -> Option<Seq<char>> {
    let list = word_list(line);
    if list.len() == 0 {
        None
    } else if list[0] == "func"@ {
        if list.len() > 1 {
            Some("func "@ + before_char(list[1], '('))
        } else {
            None
        }
    } else if list[0] == "type"@ {
        if list.len() > 2 {
            Some(list[2] + " "@ + list[1])
        } else if list.len() > 1 {
            Some("type"@ + " "@ + list[1])
        } else {
            None
        }
    } else if list[0] == "var"@ || list[0] == "const"@ {
        if list.len() > 1 {
            Some(list[0] + " "@ + list[1])
        } else {
            None
        }
    } else {
        Some(line)
    }
}

/// The symbol that a hover text of a language shows.
pub open spec fn generic_symbol(language: Seq<char>, text: Seq<char>) -> Option<Seq<char>> {
    match first_filled(line_list(leading_code(text))) {
        Some(line) => if language == "typescript"@ || language == "javascript"@ {
            ts_symbol(line)
        } else if language == "python"@ {
            python_symbol(line)
        } else if language == "go"@ {
            go_symbol(line)
        } else {
            Some(line)
        },
        None => None,
    }
}

/// The text of a hover answer.
pub open spec fn generic_text(hover: JsonTree) -> Option<Seq<char>> {
    match hover.field("contents"@) {
        Some(contents) => shown_text(contents),
        None => None,
    }
}

/// The name of the symbol that a hover answer of a language shows.
pub open spec fn generic_name(language: Seq<char>, hover: JsonTree) -> Option<Seq<char>> {
    match generic_text(hover) {
        Some(text) => generic_symbol(language, text),
        None => None,
    }
}

/// What a hover and a definition answer say of a symbol. Its kind is part of the name.
pub open spec fn generic_symbol_info(
    language: Seq<char>,
    hover: JsonTree,
    definition: JsonTree,
) -> SymbolView {
    let (uri, line) = place_of(definition_place(definition));
    SymbolView {
        qualified_name: generic_name(language, hover),
        kind: None,
        definition_uri: uri,
        definition_line: line,
    }
}

/// Reads symbols of a language out of the answers of its language server.
pub struct GenericSymbolExtractor {
    language: String,
}

fn after_kind(kind: &str, name: &str) -> (r: String)
    ensures
        r@ == kind@ + " "@ + name@,
{
    let mut out: String = kind.to_string();
    out.append(" ");
    out.append(name);
    out
}

fn skip_remark<'a>(line: &'a str) -> (r: &'a str)
    ensures
        r@ == past_remark(line@),
{
    if let Some(rest) = strip_prefix(line, "(property)") {
        return trim(rest);
    }
    if let Some(rest) = strip_prefix(line, "(method)") {
        return trim(rest);
    }
    if let Some(rest) = strip_prefix(line, "(alias)") {
        return trim(rest);
    }
    if let Some(rest) = strip_prefix(line, "(type alias)") {
        return trim(rest);
    }
    if let Some(rest) = strip_prefix(line, "(parameter)") {
        return trim(rest);
    }
    if let Some(rest) = strip_prefix(line, "(local var)") {
        return trim(rest);
    }
    if let Some(rest) = strip_prefix(line, "(local const)") {
        return trim(rest);
    }
    line
}

fn kind_of_ts_word<'a>(word: &'a str) -> (r: Option<&'a str>)
    ensures
        match r {
            Some(kind) => ts_kind(word@) == Some(kind@),
            None => ts_kind(word@) is None,
        },
{
    if same_text(word, "const") || same_text(word, "let") || same_text(word, "var") {
        Some("const")
    } else if same_text(word, "function") || same_text(word, "async") {
        Some("function")
    } else if same_text(word, "class") || same_text(word, "interface") || same_text(word, "type")
        || same_text(word, "enum") || same_text(word, "namespace") {
        Some(word)
    } else {
        None
    }
}

impl GenericSymbolExtractor {
    /// The language whose symbols are read.
    pub closed spec fn language(&self) -> Seq<char> {
        self.language@
    }

    /// An extractor for a language.
    pub fn new(language: &str) -> (r: Self)
        ensures
            r.language() == language@,
    {
        GenericSymbolExtractor { language: language.to_string() }
    }

    /// The text of hover contents.
    pub fn contents_to_text(&self, contents: &Json) -> (r: Option<String>)
        ensures
            opt_view(r) == shown_text(contents@),
        decreases contents,
    {
        match contents {
            Json::Text(s) => Some(s.clone()),
            Json::Object(object) => match object.get("value") {
                Some(value) => match value.as_str() {
                    Some(s) => Some(s.to_string()),
                    None => None,
                },
                None => None,
            },
            Json::Array(items) => {
                let mut parts: Vec<String> = Vec::new();
                let mut i: usize = 0;
                let ghost all = contents@->Array_0;
                while i < items.len()
                    invariant
                        *contents == Json::Array(*items),
                        all == contents@->Array_0,
                        all.len() == items.len(),
                        i <= items.len(),
                        string_views(parts@) == shown_texts(all.take(i as int)),
                    decreases items.len() - i,
                {
                    proof {
                        assert(decreases_to!(*contents => contents->Array_0));
                        assert(decreases_to!(*items => items@));
                        assert(decreases_to!(items@ => items@[i as int]));
                        assert(all.take(i + 1).drop_last() =~= all.take(i as int));
                        assert(all.take(i + 1).last() == items@[i as int]@);
                    }
                    let ghost done = string_views(parts@);
                    if let Some(part) = self.contents_to_text(&items[i]) {
                        parts.push(part);
                        assert(string_views(parts@) =~= done.push(part@));
                    }
                    i += 1;
                }
                assert(all.take(i as int) =~= all);
                if parts.len() == 0 {
                    None
                } else {
                    Some(join_strings(&parts, "\n"))
                }
            },
            _ => None,
        }
    }

    /// The code block that a text starts with, where it is closed and not empty; else the text
    /// without the white space around it.
    pub fn strip_markdown_code_block(&self, text: &str) -> (r: String)
        ensures
            r@ == leading_code(text@),
    {
        let t: &str = trim(text);
        if starts_with(t, "```") {
            let all: Vec<&str> = lines(t);
            let ghost list = line_list(t@);
            proof {
                lemma_views(all@);
            }
            let mut end: usize = 1;
            let mut code: Vec<&str> = Vec::new();
            while end < all.len() && !same_text(trim(all[end]), "```")
                invariant
                    1 <= end,
                    end <= all.len() || end == 1,
                    all.len() == list.len(),
                    forall|j: int| 0 <= j < all.len() ==> (#[trigger] all@[j])@ == list[j],
                    end <= all.len() ==> views(code@) == list.subrange(1, end as int),
                    closing_fence(list, end as nat) == closing_fence(list, 1),
                decreases all.len() - end,
            {
                let ghost done = views(code@);
                code.push(all[end]);
                proof {
                    assert(views(code@) =~= done.push(list[end as int]));
                    assert(list.subrange(1, end + 1) =~= list.subrange(1, end as int).push(
                        list[end as int],
                    ));
                }
                end += 1;
            }
            if end < all.len() && end > 1 {
                return join(&code, "\n");
            }
        }
        t.to_string()
    }

    fn first_filled_line<'a>(&self, text: &'a str) -> (r: Option<&'a str>)
        ensures
            match r {
                Some(line) => first_filled(line_list(text@)) == Some(line@),
                None => first_filled(line_list(text@)) is None,
            },
    {
        let all: Vec<&'a str> = lines(text);
        let ghost list = line_list(text@);
        let mut i: usize = 0;
        proof {
            lemma_views(all@);
            assert(list.skip(0) =~= list);
        }
        while i < all.len()
            invariant
                i <= all.len(),
                all.len() == list.len(),
                forall|j: int| 0 <= j < all.len() ==> (#[trigger] all@[j])@ == list[j],
                first_filled(list.skip(i as int)) == first_filled(list),
                list == line_list(text@),
            decreases all.len() - i,
        {
            proof {
                assert(list.skip(i as int)[0] == all@[i as int]@);
                assert(list.skip(i as int).drop_first() =~= list.skip(i + 1));
            }
            let line: &'a str = trim(all[i]);
            if !line.is_empty() {
                return Some(line);
            }
            i += 1;
        }
        None
    }

    /// The symbol that a hover text shows.
    pub fn extract_symbol_name_generic(&self, text: &str) -> (r: Option<String>)
        ensures
            opt_view(r) == generic_symbol(self.language(), text@),
    {
        let clean: String = self.strip_markdown_code_block(text);
        let line: &str = match self.first_filled_line(clean.as_str()) {
            Some(line) => line,
            None => {
                return None;
            },
        };
        let language: &str = self.language.as_str();
        if same_text(language, "typescript") || same_text(language, "javascript") {
            self.extract_ts_symbol(line)
        } else if same_text(language, "python") {
            self.extract_python_symbol(line)
        } else if same_text(language, "go") {
            self.extract_go_symbol(line)
        } else {
            Some(line.to_string())
        }
    }

    /// The symbol that a line of TypeScript or JavaScript shows.
    pub fn extract_ts_symbol(&self, line: &str) -> (r: Option<String>)
        ensures
            opt_view(r) == ts_symbol(line@),
    {
        let shown: &str = skip_remark(line);
        let parts: Vec<&str> = words(shown);
        proof {
            lemma_views(parts@);
        }
        if parts.len() == 0 {
            return None;
        }
        match kind_of_ts_word(parts[0]) {
            Some(kind) => {
                let name: &str = if parts.len() > 1 {
                    take_before(take_before(take_before(parts[1], ':'), '('), '<')
                } else {
                    shown
                };
                Some(after_kind(kind, name))
            },
            None => Some(
                take_before(take_before(take_before(parts[0], ':'), '('), '<').to_string(),
            ),
        }
    }

    /// The symbol that a line of Python shows.
    pub fn extract_python_symbol(&self, line: &str) -> (r: Option<String>)
        ensures
            opt_view(r) == python_symbol(line@),
    {
        let parts: Vec<&str> = words(line);
        proof {
            lemma_views(parts@);
        }
        if parts.len() == 0 {
            return None;
        }
        if same_text(parts[0], "def") || same_text(parts[0], "async") {
            let at: usize = if same_text(parts[0], "async") {
                2
            } else {
                1
            };
            if at < parts.len() {
                let mut out: String = "def ".to_string();
                out.append(take_before(parts[at], '('));
                Some(out)
            } else {
                None
            }
        } else if same_text(parts[0], "class") {
            if parts.len() > 1 {
                let mut out: String = "class ".to_string();
                out.append(take_before(take_before(parts[1], '('), ':'));
                Some(out)
            } else {
                None
            }
        } else {
            let shown: &str = trim(skip_prefix(line, "(variable)"));
            Some(trim(take_before(shown, ':')).to_string())
        }
    }

    /// The symbol that a line of Go shows.
    pub fn extract_go_symbol(&self, line: &str) -> (r: Option<String>)
        ensures
            opt_view(r) == go_symbol(line@),
    {
        let parts: Vec<&str> = words(line);
        proof {
            lemma_views(parts@);
        }
        if parts.len() == 0 {
            return None;
        }
        if same_text(parts[0], "func") {
            if parts.len() > 1 {
                let mut out: String = "func ".to_string();
                out.append(take_before(parts[1], '('));
                Some(out)
            } else {
                None
            }
        } else if same_text(parts[0], "type") {
            if parts.len() > 2 {
                Some(after_kind(parts[2], parts[1]))
            } else if parts.len() > 1 {
                Some(after_kind("type", parts[1]))
            } else {
                None
            }
        } else if same_text(parts[0], "var") || same_text(parts[0], "const") {
            if parts.len() > 1 {
                Some(after_kind(parts[0], parts[1]))
            } else {
                None
            }
        } else {
            Some(line.to_string())
        }
    }
}

impl SymbolExtractor for GenericSymbolExtractor {
    open spec fn name_in(&self, hover: JsonTree) -> Option<Seq<char>> {
        generic_name(self.language(), hover)
    }

    open spec fn text_in(&self, hover: JsonTree) -> Option<Seq<char>> {
        generic_text(hover)
    }

    open spec fn symbol_in(&self, hover: JsonTree, definition: JsonTree) -> SymbolView {
        generic_symbol_info(self.language(), hover, definition)
    }

    fn extract_qualified_name(&self, hover_result: &Json) -> (r: Option<String>) {
        let contents: &Json = match hover_result.get("contents") {
            Some(contents) => contents,
            None => {
                return None;
            },
        };
        match self.contents_to_text(contents) {
            Some(text) => self.extract_symbol_name_generic(text.as_str()),
            None => None,
        }
    }

    fn extract_hover_text(&self, hover_result: &Json) -> (r: Option<String>) {
        match hover_result.get("contents") {
            Some(contents) => self.contents_to_text(contents),
            None => None,
        }
    }

    fn extract_symbol_info(&self, hover: &Json, definition: &Json) -> (r: SymbolInfo) {
        let qualified_name: Option<String> = self.extract_qualified_name(hover);
        let (definition_uri, definition_line): (Option<String>, Option<u32>) =
            extract_definition_location(definition);
        SymbolInfo { qualified_name, kind: None, definition_uri, definition_line }
    }
}

/// The texts of an array of hover contents come in the order of its items, and an item without one
/// is left out.
pub proof fn lemma_shown_texts_come_in_order(before: Seq<JsonTree>, after: Seq<JsonTree>)
    ensures
        shown_texts(before + after) == shown_texts(before) + shown_texts(after),
    decreases after.len(),
{
    if after.len() == 0 {
        assert(before + after =~= before);
        assert(shown_texts(before) + shown_texts(after) =~= shown_texts(before));
    } else {
        let whole = before + after;
        assert(whole.last() == after.last());
        assert(whole.drop_last() =~= before + after.drop_last());
        lemma_shown_texts_come_in_order(before, after.drop_last());
        if let Some(text) = shown_text(after.last()) {
            assert((shown_texts(before) + shown_texts(after.drop_last())).push(text)
                =~= shown_texts(before) + shown_texts(after.drop_last()).push(text));
        }
    }
}

/// The text of hover contents: a text itself, of an object its value, and of an array the texts of
/// its items on lines of their own; nothing else has one.
pub proof fn lemma_contents_have_their_texts(contents: JsonTree, item: JsonTree)
    ensures
        contents matches JsonTree::Text(text) ==> shown_text(contents) == Some(text),
        contents is Object ==> shown_text(contents) == match contents.field("value"@) {
            Some(JsonTree::Text(text)) => Some(text),
            _ => None,
        },
        contents matches JsonTree::Array(items) ==> {
            &&& shown_texts(items).len() == 0 ==> shown_text(contents) is None
            &&& shown_texts(items).len() > 0 ==> shown_text(contents) == Some(
                joined(shown_texts(items), "\n"@),
            )
        },
        !(contents is Text || contents is Object || contents is Array) ==> shown_text(contents)
            is None,
        shown_texts(seq![item]) == match shown_text(item) {
            Some(text) => seq![text],
            None => seq![],
        },
{
    reveal_with_fuel(shown_texts, 2);
    assert(seq![item].drop_last() =~= Seq::<JsonTree>::empty());
    assert(shown_texts(Seq::<JsonTree>::empty()) =~= Seq::<Seq<char>>::empty());
    assert(shown_texts(seq![item]) =~= match shown_text(item) {
        Some(text) => seq![text],
        None => seq![],
    });
}

proof fn lemma_closing_fence(lines: Seq<Seq<char>>, from: nat, k: int)
    requires
        from <= k <= lines.len(),
        forall|i: int| from <= i < k ==> trimmed(#[trigger] lines[i]) != "```"@,
        k < lines.len() ==> trimmed(lines[k]) == "```"@,
    ensures
        closing_fence(lines, from) == k,
    decreases k - from,
{
    if from < k {
        assert(trimmed(lines[from as int]) != "```"@);
        lemma_closing_fence(lines, from + 1, k);
    }
}

/// A text that starts with a code block is read by the lines of the block, up to the first line that
/// holds three backticks and nothing else. Without such a line, with no line before it, or without
/// a block at its start it is read whole, without the white space around it.
pub proof fn lemma_leading_blocks_are_read(text: Seq<char>, k: int)
    requires
        1 <= k,
        k <= line_list(trimmed(text)).len() || k == 1,
        forall|i: int|
            1 <= i < k ==> trimmed(#[trigger] line_list(trimmed(text))[i]) != "```"@,
        k < line_list(trimmed(text)).len() ==> trimmed(line_list(trimmed(text))[k]) == "```"@,
    ensures
        has_prefix(trimmed(text), "```"@) && 1 < k < line_list(trimmed(text)).len()
            ==> leading_code(text) == joined(line_list(trimmed(text)).subrange(1, k), "\n"@),
        !has_prefix(trimmed(text), "```"@) || k == 1 || k >= line_list(trimmed(text)).len()
            ==> leading_code(text) == trimmed(text),
{
    let list = line_list(trimmed(text));
    if k <= list.len() {
        lemma_closing_fence(list, 1, k);
    }
}

/// The line that is read is the first one that is not blank.
pub proof fn lemma_first_filled_line_is_read(lines: Seq<Seq<char>>, k: int)
    requires
        0 <= k <= lines.len(),
        forall|i: int| 0 <= i < k ==> trimmed(#[trigger] lines[i]).len() == 0,
        k < lines.len() ==> trimmed(lines[k]).len() > 0,
    ensures
        first_filled(lines) == if k < lines.len() {
            Some(trimmed(lines[k]))
        } else {
            None
        },
    decreases k,
{
    if k > 0 {
        let rest = lines.drop_first();
        assert(trimmed(lines[0]).len() == 0);
        assert forall|i: int| 0 <= i < k - 1 implies trimmed(#[trigger] rest[i]).len() == 0 by {
            assert(rest[i] == lines[i + 1]);
        }
        lemma_first_filled_line_is_read(rest, k - 1);
    }
}

/// The symbol is read from the first filled line in the way of the language; of a language without
/// a way of its own the line is the symbol.
pub proof fn lemma_first_filled_line_shows_the_symbol(
    language: Seq<char>,
    text: Seq<char>,
    k: int,
)
    requires
        0 <= k < line_list(leading_code(text)).len(),
        forall|i: int|
            0 <= i < k ==> trimmed(#[trigger] line_list(leading_code(text))[i]).len() == 0,
        trimmed(line_list(leading_code(text))[k]).len() > 0,
    ensures
        ({
            let line = trimmed(line_list(leading_code(text))[k]);
            &&& language == "typescript"@ || language == "javascript"@ ==> generic_symbol(
                language,
                text,
            ) == ts_symbol(line)
            &&& language == "python"@ ==> generic_symbol(language, text) == python_symbol(line)
            &&& language == "go"@ ==> generic_symbol(language, text) == go_symbol(line)
            &&& language != "typescript"@ && language != "javascript"@ && language != "python"@
                && language != "go"@ ==> generic_symbol(language, text) == Some(line)
        }),
{
    reveal_strlit("typescript");
    reveal_strlit("javascript");
    reveal_strlit("python");
    reveal_strlit("go");
    assert("python"@.len() == 6 && "go"@.len() == 2 && "typescript"@.len() == 10);
    lemma_first_filled_line_is_read(line_list(leading_code(text)), k);
}

/// Where a hover answer of a language has a text, the symbol is read from it; its place is that of
/// the definition answer, and it has no kind apart from its name.
pub proof fn lemma_symbols_are_read_from_the_text(
    language: Seq<char>,
    hover: JsonTree,
    definition: JsonTree,
    contents: JsonTree,
)
    requires
        hover.field("contents"@) == Some(contents),
    ensures
        generic_text(hover) == shown_text(contents),
        generic_name(language, hover) == match shown_text(contents) {
            Some(text) => generic_symbol(language, text),
            None => None,
        },
        generic_symbol_info(language, hover, definition).qualified_name == generic_name(
            language,
            hover,
        ),
        generic_symbol_info(language, hover, definition).kind is None,
        definition is Object ==> {
            &&& generic_symbol_info(language, hover, definition).definition_uri == location_uri(
                definition,
            )
            &&& generic_symbol_info(language, hover, definition).definition_line == location_line(
                definition,
            )
        },
        definition matches JsonTree::Array(items) && items.len() > 0 ==> {
            &&& generic_symbol_info(language, hover, definition).definition_uri == location_uri(
                definition->Array_0[0],
            )
            &&& generic_symbol_info(language, hover, definition).definition_line == location_line(
                definition->Array_0[0],
            )
        },
{
}

/// What follows a name of TypeScript: its type, its parameters or its generics.
pub open spec fn follows_ts_name(tail: Seq<char>) -> bool {
    tail.len() > 0 ==> tail[0] == ':' || tail[0] == '(' || tail[0] == '<'
}

proof fn lemma_cut_start(s: Seq<char>, c: char)
    requires
        s.len() > 0,
        s[0] != c,
    ensures
        before_char(s, c).len() > 0,
        before_char(s, c)[0] == s[0],
{
    lemma_char_position_facts(s, c);
    if char_position(s, c) == 0 {
        assert(s[0] == c);
    }
}

/// A name of TypeScript is what precedes its type, its parameters and its generics.
pub proof fn lemma_ts_names_end_before_their_types(name: Seq<char>, tail: Seq<char>)
    requires
        !name.contains(':'),
        !name.contains('('),
        !name.contains('<'),
        follows_ts_name(tail),
    ensures
        ts_name(name + tail) == name,
{
    let one = before_char(tail, ':');
    let two = before_char(one, '(');
    let three = before_char(two, '<');
    lemma_before_char_behind(name, tail, ':');
    lemma_before_char_behind(name, one, '(');
    lemma_before_char_behind(name, two, '<');
    assert(three.len() == 0) by {
        lemma_before_char(one, '(');
        lemma_before_char(two, '<');
        if tail.len() > 0 {
            if tail[0] == ':' {
                assert(one.len() == 0);
            } else {
                lemma_cut_start(tail, ':');
                if tail[0] == '(' {
                    assert(two.len() == 0);
                } else {
                    lemma_cut_start(one, '(');
                }
            }
        }
    }
    assert(name + three =~= name);
}

/// A line of TypeScript shows the kind that its first word declares and the name that the second
/// holds; without such a word the first one holds the name. Variables of all sorts are constants,
/// and functions may be asynchronous.
pub proof fn lemma_ts_lines_show_kind_and_name(line: Seq<char>, name: Seq<char>, tail: Seq<char>)
    requires
        word_list(past_remark(line)).len() > 0,
        !name.contains(':'),
        !name.contains('('),
        !name.contains('<'),
        follows_ts_name(tail),
    ensures
        ({
            let words = word_list(past_remark(line));
            let word = words[0];
            let kind = if word == "const"@ || word == "let"@ || word == "var"@ {
                "const"@
            } else if word == "function"@ || word == "async"@ {
                "function"@
            } else {
                word
            };
            let declares = kind != word || word == "const"@ || word == "function"@ || word
                == "class"@ || word == "interface"@ || word == "type"@ || word == "enum"@ || word
                == "namespace"@;
            &&& declares && words.len() > 1 && words[1] == name + tail ==> ts_symbol(line) == Some(
                kind + " "@ + name,
            )
            &&& declares && words.len() == 1 ==> ts_symbol(line) == Some(
                kind + " "@ + past_remark(line),
            )
            &&& !declares && word == name + tail ==> ts_symbol(line) == Some(name)
        }),
{
    lemma_ts_names_end_before_their_types(name, tail);
    reveal_strlit("const");
    reveal_strlit("let");
    reveal_strlit("var");
    reveal_strlit("function");
    reveal_strlit("async");
    reveal_strlit("class");
    assert("const"@[0] == 'c' && "async"@[0] == 'a' && "class"@[1] == 'l' && "const"@[1] == 'o');
}

/// An empty line of TypeScript, Python or Go shows no symbol.
pub proof fn lemma_empty_lines_show_nothing(line: Seq<char>)
    ensures
        word_list(past_remark(line)).len() == 0 ==> ts_symbol(line) is None,
        word_list(line).len() == 0 ==> python_symbol(line) is None && go_symbol(line) is None,
{
}

/// The remarks in parentheses that a language server puts before a symbol of TypeScript.
pub open spec fn is_remark(remark: Seq<char>) -> bool {
    ||| remark == "(property)"@
    ||| remark == "(method)"@
    ||| remark == "(alias)"@
    ||| remark == "(type alias)"@
    ||| remark == "(parameter)"@
    ||| remark == "(local var)"@
    ||| remark == "(local const)"@
}

/// A remark before a symbol of TypeScript is passed over, with the white space behind it; a line
/// without a remark stays as it is.
pub proof fn lemma_remarks_are_passed_over(remark: Seq<char>, rest: Seq<char>)
    ensures
        is_remark(remark) ==> past_remark(remark + rest) == trimmed(rest),
        rest.len() == 0 || rest[0] != '(' ==> past_remark(rest) == rest,
        !has_prefix(rest, "(property)"@) && !has_prefix(rest, "(method)"@) && !has_prefix(
            rest,
            "(alias)"@,
        ) && !has_prefix(rest, "(type alias)"@) && !has_prefix(rest, "(parameter)"@) && !has_prefix(
            rest,
            "(local var)"@,
        ) && !has_prefix(rest, "(local const)"@) ==> past_remark(rest) == rest,
{
    let line = remark + rest;
    lemma_texts_stand_in_others(Seq::empty(), remark, rest);
    reveal_strlit("(property)");
    reveal_strlit("(method)");
    reveal_strlit("(alias)");
    reveal_strlit("(type alias)");
    reveal_strlit("(parameter)");
    reveal_strlit("(local var)");
    reveal_strlit("(local const)");
    assert("(property)"@[0] == '(' && "(property)"@[1] == 'p' && "(property)"@[2] == 'r');
    assert("(method)"@[0] == '(' && "(method)"@[1] == 'm' && "(method)"@[2] == 'e');
    assert("(alias)"@[0] == '(' && "(alias)"@[1] == 'a' && "(alias)"@[2] == 'l');
    assert("(type alias)"@[0] == '(' && "(type alias)"@[1] == 't' && "(type alias)"@[2] == 'y');
    assert("(parameter)"@[0] == '(' && "(parameter)"@[1] == 'p' && "(parameter)"@[2] == 'a');
    assert("(local var)"@[0] == '(' && "(local var)"@[1] == 'l' && "(local var)"@[7] == 'v');
    assert("(local const)"@[0] == '(' && "(local const)"@[1] == 'l' && "(local const)"@[7] == 'c');
    if is_remark(remark) {
        assert(line[1] == remark[1] && line[2] == remark[2] && (remark.len() > 7 ==> line[7]
            == remark[7]));
        lemma_other_prefix(line, "(property)"@);
        lemma_other_prefix(line, "(method)"@);
        lemma_other_prefix(line, "(alias)"@);
        lemma_other_prefix(line, "(type alias)"@);
        lemma_other_prefix(line, "(parameter)"@);
        lemma_other_prefix(line, "(local var)"@);
    }
    if rest.len() == 0 || rest[0] != '(' {
        lemma_other_prefix(rest, "(property)"@);
        lemma_other_prefix(rest, "(method)"@);
        lemma_other_prefix(rest, "(alias)"@);
        lemma_other_prefix(rest, "(type alias)"@);
        lemma_other_prefix(rest, "(parameter)"@);
        lemma_other_prefix(rest, "(local var)"@);
        lemma_other_prefix(rest, "(local const)"@);
    }
}

proof fn lemma_other_prefix(line: Seq<char>, prefix: Seq<char>)
    ensures
        has_prefix(line, prefix) ==> line.len() >= prefix.len() && forall|i: int|
            0 <= i < prefix.len() ==> line[i] == #[trigger] prefix[i],
{
    if has_prefix(line, prefix) {
        assert forall|i: int| 0 <= i < prefix.len() implies line[i] == #[trigger] prefix[i] by {
            assert(line.subrange(0, prefix.len() as int)[i] == line[i]);
        }
    }
}

/// A line of Python shows a function by the word behind `def`, which `async` may precede, up to its
/// parameters, and a class by the word behind `class`, up to its bases or its colon.
pub proof fn lemma_python_lines_show_definitions(line: Seq<char>, name: Seq<char>, tail: Seq<char>)
    requires
        word_list(line).len() > 0,
        !name.contains('('),
    ensures
        ({
            let words = word_list(line);
            &&& tail.len() > 0 ==> tail[0] == '('
            &&& words[0] == "def"@ && words.len() > 1 && words[1] == name + tail
        }) ==> python_symbol(line) == Some("def "@ + name),
        ({
            let words = word_list(line);
            &&& tail.len() > 0 ==> tail[0] == '('
            &&& words[0] == "async"@ && words.len() > 2 && words[2] == name + tail
        }) ==> python_symbol(line) == Some("def "@ + name),
        ({
            let words = word_list(line);
            &&& !name.contains(':')
            &&& tail.len() > 0 ==> tail[0] == '(' || tail[0] == ':'
            &&& words[0] == "class"@ && words.len() > 1 && words[1] == name + tail
        }) ==> python_symbol(line) == Some("class "@ + name),
        ({
            let words = word_list(line);
            ||| words[0] == "def"@ && words.len() < 2
            ||| words[0] == "async"@ && words.len() < 3
            ||| words[0] == "class"@ && words.len() < 2
        }) ==> python_symbol(line) is None,
{
    reveal_strlit("def");
    reveal_strlit("async");
    reveal_strlit("class");
    assert("async"@[0] == 'a' && "class"@[0] == 'c' && "def"@.len() == 3);
    let one = before_char(tail, '(');
    lemma_before_char_behind(name, tail, '(');
    if !name.contains(':') && (tail.len() > 0 ==> tail[0] == '(' || tail[0] == ':') {
        lemma_before_char_behind(name, one, ':');
        lemma_before_char(one, ':');
        if tail.len() > 0 && tail[0] == ':' {
            lemma_cut_start(tail, '(');
        }
    }
}

/// Any other line of Python shows the name before its colon, behind a remark or without it.
pub proof fn lemma_python_lines_show_variables(line: Seq<char>, name: Seq<char>, rest: Seq<char>)
    requires
        word_list(line).len() > 0,
        word_list(line)[0] != "def"@,
        word_list(line)[0] != "async"@,
        word_list(line)[0] != "class"@,
        !name.contains(':'),
        trimmed(past_prefix(line, "(variable)"@)) == name + seq![':'] + rest || trimmed(
            past_prefix(line, "(variable)"@),
        ) == name,
    ensures
        python_symbol(line) == Some(trimmed(name)),
{
    lemma_split_at_char(name, ':', rest);
    lemma_before_char(name, ':');
}

/// A line of Go shows a function by the word behind `func` up to its parameters, a type by what it
/// is and its name, a variable or a constant by its name, and anything else as it stands.
pub proof fn lemma_go_lines_show_declarations(line: Seq<char>, name: Seq<char>, tail: Seq<char>)
    requires
        word_list(line).len() > 0,
        !name.contains('('),
        tail.len() > 0 ==> tail[0] == '(',
    ensures
        ({
            let words = word_list(line);
            let word = words[0];
            &&& word == "func"@ && words.len() > 1 && words[1] == name + tail ==> go_symbol(line)
                == Some("func "@ + name)
            &&& word == "type"@ && words.len() > 2 ==> go_symbol(line) == Some(
                words[2] + " "@ + words[1],
            )
            &&& word == "type"@ && words.len() == 2 ==> go_symbol(line) == Some(
                "type"@ + " "@ + words[1],
            )
            &&& word == "var"@ && words.len() > 1 ==> go_symbol(line) == Some(
                "var"@ + " "@ + words[1],
            )
            &&& word == "const"@ && words.len() > 1 ==> go_symbol(line) == Some(
                "const"@ + " "@ + words[1],
            )
            &&& (word == "func"@ || word == "type"@ || word == "var"@ || word == "const"@)
                && words.len() == 1 ==> go_symbol(line) is None
            &&& word != "func"@ && word != "type"@ && word != "var"@ && word != "const"@
                ==> go_symbol(line) == Some(line)
        }),
{
    reveal_strlit("func");
    reveal_strlit("type");
    reveal_strlit("var");
    reveal_strlit("const");
    assert("func"@[0] == 'f' && "type"@[0] == 't' && "var"@.len() == 3 && "const"@.len() == 5);
    lemma_before_char_behind(name, tail, '(');
}

/// An answer that is neither a location nor a list of them, and an empty list, names no place; and an
/// answer without contents shows nothing.
pub proof fn lemma_answers_without_places(
    language: Seq<char>,
    hover: JsonTree,
    definition: JsonTree,
)
    ensures
        !(definition is Object || definition is Array) ==> {
            &&& generic_symbol_info(language, hover, definition).definition_uri is None
            &&& generic_symbol_info(language, hover, definition).definition_line is None
        },
        definition matches JsonTree::Array(items) && items.len() == 0 ==> {
            &&& generic_symbol_info(language, hover, definition).definition_uri is None
            &&& generic_symbol_info(language, hover, definition).definition_line is None
        },
        hover.field("contents"@) is None ==> generic_text(hover) is None && generic_name(
            language,
            hover,
        ) is None,
{
}

} // verus!
