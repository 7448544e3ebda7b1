//! The answers of language servers as Neovim hands them on.

use vstd::prelude::*;
use vstd::string::*;

use crate::json::{
    lemma_array_view, lemma_lookup_with_field, lemma_with_field_twice, parsed_text,
    read_json, text_of, trees, with_field, Json, JsonObject, JsonTree,
};
use crate::symbol::markdown::{code_of, extract_plaintext_from_markdown};
use crate::text::same_text;

verus! {

/// The answer of one server: its `result`, unless that is null. With `skip_errors` one that
/// reports an error has no answer.
pub open spec fn answer_of(response: JsonTree, skip_errors: bool) -> Option<JsonTree> {
    if skip_errors && (response.field("err"@) is Some || response.field("error"@) is Some) {
        None
    } else {
        match response.field("result"@) {
            Some(result) => if result is Null {
                None
            } else {
                Some(result)
            },
            None => None,
        }
    }
}

/// The first answer among the responses of several servers.
pub open spec fn first_answer(responses: Seq<JsonTree>, skip_errors: bool) -> Option<JsonTree>
    decreases responses.len(),
{
    if responses.len() == 0 {
        None
    } else {
        match answer_of(responses[0], skip_errors) {
            Some(answer) => Some(answer),
            None => first_answer(responses.drop_first(), skip_errors),
        }
    }
}

/// The values of the fields of an object.
pub open spec fn field_values(fields: Seq<(Seq<char>, JsonTree)>) -> Seq<JsonTree> {
    Seq::new(fields.len(), |i: int| fields[i].1)
}

/// The Markdown text of the contents of a hover answer, where they say that they are Markdown.
pub open spec fn markdown_value(contents: JsonTree) -> Option<Seq<char>> {
    if text_of(contents.field("kind"@)) == Some("markdown"@) {
        text_of(contents.field("value"@))
    } else {
        None
    }
}

/// An object with a field set; anything else as it is.
pub open spec fn set_field(tree: JsonTree, key: Seq<char>, value: JsonTree) -> JsonTree {
    match tree {
        JsonTree::Object(fields) => JsonTree::Object(with_field(fields, key, value)),
        _ => tree,
    }
}

/// Hover contents as plain text: `value` is the code of the Markdown text.
pub open spec fn as_plaintext(contents: JsonTree, markdown: Seq<char>) -> JsonTree {
    set_field(
        set_field(contents, "kind"@, JsonTree::Text("plaintext"@)),
        "value"@,
        JsonTree::Text(code_of(markdown)),
    )
}

/// A hover answer with contents in plain text in place of Markdown.
pub open spec fn plaintext_hover(result: JsonTree) -> JsonTree {
    match result.field("contents"@) {
        Some(contents) => match markdown_value(contents) {
            Some(markdown) => set_field(result, "contents"@, as_plaintext(contents, markdown)),
            None => result,
        },
        None => result,
    }
}

/// The answer in what Neovim hands on: an array of responses, or an object with a response under
/// the id of each client. An array without an answer gives null, and so does nothing at all; an
/// object without an answer is one itself.
pub open spec fn neovim_answer(parsed: JsonTree) -> JsonTree {
    match parsed {
        JsonTree::Array(items) => match first_answer(items, true) {
            Some(answer) => plaintext_hover(answer),
            None => JsonTree::Null,
        },
        JsonTree::Object(fields) => if fields.len() == 0 {
            JsonTree::Null
        } else {
            match first_answer(field_values(fields), false) {
                Some(answer) => plaintext_hover(answer),
                None => parsed,
            }
        },
        _ => parsed,
    }
}

fn has_answer(response: &Json, skip_errors: bool) -> (r: bool)
    ensures
        r == (answer_of(response@, skip_errors) is Some),
{
    if skip_errors && (response.get("err").is_some() || response.get("error").is_some()) {
        return false;
    }
    match response.get("result") {
        Some(result) => !result.is_null(),
        None => false,
    }
}

fn take_result(response: Json) -> (r: Json)
    requires
        response@.field("result"@) is Some,
    ensures
        response@.field("result"@) == Some(r@),
{
    match response {
        Json::Object(object) => {
            let mut object: JsonObject = object;
            match object.insert("result".to_string(), Json::Null) {
                Some(result) => result,
                None => Json::Null,
            }
        },
        _ => Json::Null,
    }
}

/// The Markdown text of hover contents, where they say that they are Markdown.
fn markdown_of(contents: &Json) -> (r: Option<String>)
    ensures
        match r {
            Some(text) => markdown_value(contents@) == Some(text@),
            None => markdown_value(contents@) is None,
        },
{
    let kind: &str = match contents.get("kind") {
        Some(value) => match value.as_str() {
            Some(kind) => kind,
            None => {
                return None;
            },
        },
        None => {
            return None;
        },
    };
    if !same_text(kind, "markdown") {
        return None;
    }
    match contents.get("value") {
        Some(value) => match value.as_str() {
            Some(text) => Some(text.to_string()),
            None => None,
        },
        None => None,
    }
}

/// A hover answer with contents in plain text in place of Markdown.
pub fn convert_markdown_hover_to_plaintext(result: Json) -> (r: Json)
    ensures
        r@ == plaintext_hover(result@),
{
    let markdown: String = match result.get("contents") {
        Some(contents) => match markdown_of(contents) {
            Some(markdown) => markdown,
            None => {
                return result;
            },
        },
        None => {
            return result;
        },
    };
    let plain: String = extract_plaintext_from_markdown(markdown.as_str());
    match result {
        Json::Object(object) => {
            let mut object: JsonObject = object;
            let ghost fields = object@;
            match object.insert("contents".to_string(), Json::Null) {
                Some(Json::Object(contents)) => {
                    let mut contents: JsonObject = contents;
                    contents.insert("kind".to_string(), Json::Text("plaintext".to_string()));
                    contents.insert("value".to_string(), Json::Text(plain));
                    let rewritten: Json = Json::Object(contents);
                    let ghost tree = rewritten@;
                    object.insert("contents".to_string(), rewritten);
                    proof {
                        lemma_with_field_twice(fields, "contents"@, JsonTree::Null, tree);
                    }
                    Json::Object(object)
                },
                _ => Json::Object(object),
            }
        },
        other => other,
    }
}

/// The answer in a document that Neovim hands on.
pub fn neovim_response(parsed: Json) -> (r: Json)
    ensures
        r@ == neovim_answer(parsed@),
{
    match parsed {
        Json::Array(items) => {
            let mut items: Vec<Json> = items;
            let ghost all = trees(items@);
            proof {
                lemma_array_view(items);
                assert(all.skip(0) =~= all);
            }
            let mut i: usize = 0;
            while i < items.len()
                invariant
                    i <= items.len(),
                    all == trees(items@),
                    first_answer(all.skip(i as int), true) == first_answer(all, true),
                    neovim_answer(parsed@) == neovim_answer(JsonTree::Array(all)),
                decreases items.len() - i,
            {
                proof {
                    assert(all.skip(i as int)[0] == items@[i as int]@);
                    assert(all.skip(i as int).drop_first() =~= all.skip(i + 1));
                }
                if has_answer(&items[i], true) {
                    let item: Json = items.remove(i);
                    return convert_markdown_hover_to_plaintext(take_result(item));
                }
                i += 1;
            }
            Json::Null
        },
        Json::Object(object) => {
            let mut object: JsonObject = object;
            if object.len() == 0 {
                return Json::Null;
            }
            let ghost all = field_values(object@);
            proof {
                assert(all.skip(0) =~= all);
            }
            let mut i: usize = 0;
            while i < object.len()
                invariant
                    i <= object@.len(),
                    object@.len() > 0,
                    all == field_values(object@),
                    first_answer(all.skip(i as int), false) == first_answer(all, false),
                    neovim_answer(parsed@) == neovim_answer(JsonTree::Object(object@)),
                decreases object@.len() - i,
            {
                proof {
                    assert(all.skip(i as int)[0] == object@[i as int].1);
                    assert(all.skip(i as int).drop_first() =~= all.skip(i + 1));
                }
                if has_answer(object.value(i), false) {
                    let response: Json = object.take_value(i);
                    return convert_markdown_hover_to_plaintext(take_result(response));
                }
                i += 1;
            }
            Json::Object(object)
        },
        other => other,
    }
}

/// Reads what Neovim hands on and gives the answer in it.
pub fn parse_neovim_lsp_response(json: &str) -> (r: Result<Json, serde_json::Error>)
    ensures
        match r {
            Ok(answer) => parsed_text(json@) is Some && answer@ == neovim_answer(
                parsed_text(json@)->0,
            ),
            Err(_) => parsed_text(json@) is None,
        },
{
    match read_json(json) {
        Ok(parsed) => Ok(neovim_response(parsed)),
        Err(error) => Err(error),
    }
}

/// The contents of a converted answer are no Markdown, the rest of the answer is as before, and
/// converting it again changes nothing.
pub proof fn lemma_no_markdown_is_left(result: JsonTree, key: Seq<char>)
    ensures
        plaintext_hover(result).field("contents"@) matches Some(contents) ==> markdown_value(
            contents,
        ) is None,
        key != "contents"@ ==> plaintext_hover(result).field(key) == result.field(key),
        plaintext_hover(plaintext_hover(result)) == plaintext_hover(result),
{
    if let Some(contents) = result.field("contents"@) {
        if let Some(markdown) = markdown_value(contents) {
            reveal_strlit("kind");
            reveal_strlit("value");
            reveal_strlit("markdown");
            reveal_strlit("plaintext");
            assert("kind"@.len() != "value"@.len());
            assert("markdown"@.len() != "plaintext"@.len());
            let fields = result->Object_0;
            let old_contents = contents->Object_0;
            let plain = JsonTree::Text("plaintext"@);
            let code = JsonTree::Text(code_of(markdown));
            let marked = with_field(old_contents, "kind"@, plain);
            lemma_lookup_with_field(old_contents, "kind"@, plain, "kind"@);
            lemma_lookup_with_field(marked, "value"@, code, "kind"@);
            lemma_lookup_with_field(
                fields,
                "contents"@,
                as_plaintext(contents, markdown),
                key,
            );
        }
    }
}

/// The response of a server that has no answer does not matter: in an array, one that reports an
/// error.
pub proof fn lemma_silent_servers_do_not_matter(
    before: Seq<JsonTree>,
    silent: JsonTree,
    after: Seq<JsonTree>,
    skip_errors: bool,
)
    requires
        answer_of(silent, skip_errors) is None,
    ensures
        first_answer(before + seq![silent] + after, skip_errors) == first_answer(
            before + after,
            skip_errors,
        ),
    decreases before.len(),
{
    if before.len() == 0 {
        assert((before + seq![silent] + after).drop_first() =~= before + after);
    } else {
        lemma_silent_servers_do_not_matter(before.drop_first(), silent, after, skip_errors);
        assert((before + seq![silent] + after).drop_first() =~= before.drop_first() + seq![silent]
            + after);
        assert((before + after).drop_first() =~= before.drop_first() + after);
    }
}

/// The first server that has answered decides, whatever the ones behind it say; without one there is
/// no answer.
pub proof fn lemma_first_answer_decides(responses: Seq<JsonTree>, skip_errors: bool, k: int)
    requires
        0 <= k <= responses.len(),
        forall|i: int| 0 <= i < k ==> answer_of(#[trigger] responses[i], skip_errors) is None,
        k < responses.len() ==> answer_of(responses[k], skip_errors) is Some,
    ensures
        first_answer(responses, skip_errors) == if k < responses.len() {
            answer_of(responses[k], skip_errors)
        } else {
            None
        },
    decreases k,
{
    if k > 0 {
        let rest = responses.drop_first();
        assert(answer_of(responses[0], skip_errors) is None);
        assert forall|i: int| 0 <= i < k - 1 implies answer_of(#[trigger] rest[i], skip_errors)
            is None by {
            assert(rest[i] == responses[i + 1]);
        }
        lemma_first_answer_decides(rest, skip_errors, k - 1);
    }
}

/// A server has answered by a result that is not null. In an array one that reports an error has
/// not; under the id of a client that does not matter.
pub proof fn lemma_results_are_answers(response: JsonTree, result: JsonTree)
    ensures
        response.field("result"@) == Some(result) && result !is Null ==> {
            &&& answer_of(response, false) == Some(result)
            &&& response.field("err"@) is None && response.field("error"@) is None ==> answer_of(
                response,
                true,
            ) == Some(result)
        },
        response.field("err"@) is Some || response.field("error"@) is Some ==> answer_of(
            response,
            true,
        ) is None,
        response.field("result"@) is None || response.field("result"@) == Some(JsonTree::Null)
            ==> answer_of(response, false) is None && answer_of(response, true) is None,
{
}

/// What Neovim hands on: of an array the first answer, of an object the first under the id of
/// a client, in the order of its keys. Where nobody has answered, an array and an empty object give
/// null; any other object, and anything else, is the answer itself.
pub proof fn lemma_answers_are_handed_on(parsed: JsonTree, k: int, answer: JsonTree)
    ensures
        parsed matches JsonTree::Array(items) && 0 <= k < items.len() && (forall|i: int|
            0 <= i < k ==> answer_of(#[trigger] items[i], true) is None) && answer_of(
            items[k],
            true,
        ) == Some(answer) ==> neovim_answer(parsed) == plaintext_hover(answer),
        parsed matches JsonTree::Array(items) && (forall|i: int|
            0 <= i < items.len() ==> answer_of(#[trigger] items[i], true) is None)
            ==> neovim_answer(parsed) is Null,
        parsed matches JsonTree::Object(fields) && 0 <= k < fields.len() && (forall|i: int|
            0 <= i < k ==> answer_of((#[trigger] fields[i]).1, false) is None) && answer_of(
            fields[k].1,
            false,
        ) == Some(answer) ==> neovim_answer(parsed) == plaintext_hover(answer),
        parsed matches JsonTree::Object(fields) && fields.len() > 0 && (forall|i: int|
            0 <= i < fields.len() ==> answer_of((#[trigger] fields[i]).1, false) is None)
            ==> neovim_answer(parsed) == parsed,
        parsed matches JsonTree::Object(fields) && fields.len() == 0 ==> neovim_answer(parsed)
            is Null,
        !(parsed is Array || parsed is Object) ==> neovim_answer(parsed) == parsed,
{
    match parsed {
        JsonTree::Array(items) => {
            if 0 <= k < items.len() && (forall|i: int|
                0 <= i < k ==> answer_of(#[trigger] items[i], true) is None) && answer_of(
                items[k],
                true,
            ) is Some {
                lemma_first_answer_decides(items, true, k);
            }
            if forall|i: int| 0 <= i < items.len() ==> answer_of(#[trigger] items[i], true) is None {
                lemma_first_answer_decides(items, true, items.len() as int);
            }
        },
        JsonTree::Object(fields) => {
            let values = field_values(fields);
            if 0 <= k < fields.len() && (forall|i: int|
                0 <= i < k ==> answer_of((#[trigger] fields[i]).1, false) is None) && answer_of(
                fields[k].1,
                false,
            ) is Some {
                assert forall|i: int| 0 <= i < k implies answer_of(#[trigger] values[i], false)
                    is None by {
                    assert(values[i] == fields[i].1);
                }
                lemma_first_answer_decides(values, false, k);
            }
            if forall|i: int|
                0 <= i < fields.len() ==> answer_of((#[trigger] fields[i]).1, false) is None {
                assert forall|i: int| 0 <= i < values.len() implies answer_of(
                    #[trigger] values[i],
                    false,
                ) is None by {
                    assert(values[i] == fields[i].1);
                }
                lemma_first_answer_decides(values, false, values.len() as int);
            }
        },
        _ => {},
    }
}

/// A hover answer in Markdown becomes one in plain text: its contents say so, and their value is the
/// code of the Markdown text. Any other answer stays as it is.
pub proof fn lemma_markdown_becomes_plain_text(
    result: JsonTree,
    contents: JsonTree,
    markdown: Seq<char>,
    key: Seq<char>,
)
    requires
        result.field("contents"@) == Some(contents),
    ensures
        contents.field("kind"@) == Some(JsonTree::Text("markdown"@)) && contents.field("value"@)
            == Some(JsonTree::Text(markdown)) ==> (plaintext_hover(result).field("contents"@)
            matches Some(plain) && {
            &&& plain.field("kind"@) == Some(JsonTree::Text("plaintext"@))
            &&& plain.field("value"@) == Some(JsonTree::Text(code_of(markdown)))
            &&& key != "kind"@ && key != "value"@ ==> plain.field(key) == contents.field(key)
        }),
        contents.field("kind"@) != Some(JsonTree::Text("markdown"@)) ==> plaintext_hover(result)
            == result,
        text_of(contents.field("value"@)) is None ==> plaintext_hover(result) == result,
{
    if contents.field("kind"@) == Some(JsonTree::Text("markdown"@)) && contents.field("value"@)
        == Some(JsonTree::Text(markdown)) {
        reveal_strlit("kind");
        reveal_strlit("value");
        assert("kind"@.len() != "value"@.len());
        let fields = result->Object_0;
        let old_contents = contents->Object_0;
        let plain = JsonTree::Text("plaintext"@);
        let code = JsonTree::Text(code_of(markdown));
        let marked = with_field(old_contents, "kind"@, plain);
        lemma_lookup_with_field(old_contents, "kind"@, plain, "kind"@);
        lemma_lookup_with_field(old_contents, "kind"@, plain, key);
        lemma_lookup_with_field(marked, "value"@, code, "kind"@);
        lemma_lookup_with_field(marked, "value"@, code, key);
        lemma_lookup_with_field(
            fields,
            "contents"@,
            as_plaintext(contents, markdown),
            "contents"@,
        );
    }
}

} // verus!
