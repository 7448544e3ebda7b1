//! The messages between this program and a language server: framing, requests and responses.

use vstd::prelude::*;
use vstd::string::*;
use vstd::utf8::*;

use crate::json::{json_text, lemma_lookup_at, lookup, with_field, Json, JsonObject, JsonTree};
use crate::paths::{file_name, file_name_of, is_name, lemma_last_name_of_path};
use crate::text::{
    decimal, decimal_of, has_prefix, lemma_decimal_value, lemma_texts_stand_in_others,
    lemma_trimmed_blank, lemma_trimmed_inner, numeral_value, parse_usize, precedes, same_text,
    string_views, strip_prefix, trim, trimmed, without_prefix,
};

verus! {

/// How long to wait for an answer by default, in milliseconds.
pub const DEFAULT_LSP_TIMEOUT_MS: u64 = 30000;

/// The program that a path names.
pub open spec fn program_name(server_path: Seq<char>) -> Seq<char> {
    match file_name_of(server_path) {
        Some(name) => name,
        None => server_path,
    }
}

/// The servers that speak over their standard streams only when they are told to.
pub open spec fn needs_stdio_flag(server_path: Seq<char>) -> bool {
    let name = program_name(server_path);
    name == "typescript-language-server"@ || name == "pyright-langserver"@ || name == "pyright"@
}

/// Whether a server has to be told to speak over its standard streams.
pub fn server_needs_stdio_flag(server_path: &str) -> (r: bool)
    ensures
        r == needs_stdio_flag(server_path@),
{
    let name: &str = match file_name(server_path) {
        Some(name) => name,
        None => server_path,
    };
    same_text(name, "typescript-language-server") || same_text(name, "pyright-langserver")
        || same_text(name, "pyright")
}

/// The arguments with which `lspmux` connects to a server.
pub open spec fn mux_arguments(server_path: Seq<char>) -> Seq<Seq<char>> {
    if needs_stdio_flag(server_path) {
        seq!["client"@, "--server-path"@, server_path, "--"@, "--stdio"@]
    } else {
        seq!["client"@, "--server-path"@, server_path]
    }
}

/// The arguments with which `lspmux` connects to a server.
pub fn client_arguments(server_path: &str) -> (r: Vec<String>)
    ensures
        string_views(r@) == mux_arguments(server_path@),
{
    let mut out: Vec<String> = Vec::new();
    out.push("client".to_string());
    out.push("--server-path".to_string());
    out.push(server_path.to_string());
    if server_needs_stdio_flag(server_path) {
        out.push("--".to_string());
        out.push("--stdio".to_string());
    }
    assert(string_views(out@) =~= mux_arguments(server_path@));
    out
}

/// The header of a message whose body has `length` bytes, up to the empty line that ends it.
pub open spec fn header_of(length: nat) -> Seq<char> {
    "Content-Length: "@ + decimal_of(length) + "\r\n\r\n"@
}

/// A message with its header.
pub open spec fn framed(body: Seq<char>) -> Seq<char> {
    header_of(encode_utf8(body).len()) + body
}

/// Puts the header before the body of a message.
pub fn frame_message(body: &str) -> (r: String)
    ensures
        r@ == framed(body@),
{
    let length: usize = body.as_bytes().len();
    let mut out: String = "Content-Length: ".to_string();
    out.append(decimal(length as u64).as_str());
    out.append("\r\n\r\n");
    out.append(body);
    out
}

/// A message as it is sent.
pub fn encode_message(message: &Json) -> (r: String)
    ensures
        r@ == framed(json_text(message@)),
{
    let body: String = message.to_text();
    frame_message(body.as_str())
}

/// What a line of a header tells.
pub enum HeaderStep {
    /// The header goes on; the length as known so far.
    More(usize),
    /// The header has ended; the length of the body.
    End(usize),
    /// The length is no number, or too large a one.
    Malformed,
}

/// What a line of a header gives as the length of the body, where it gives one.
pub open spec fn length_field(line: Seq<char>) -> Option<Seq<char>> {
    match without_prefix(trimmed(line), "Content-Length:"@) {
        Some(value) => Some(trimmed(value)),
        None => None,
    }
}

/// What a line of a header tells, with `known` as the length so far. The first blank line ends
/// the header.
pub open spec fn header_step(known: usize, line: Seq<char>) -> HeaderStep {
    if trimmed(line).len() == 0 {
        HeaderStep::End(known)
    } else {
        match length_field(line) {
            Some(value) => match numeral_value(value) {
                Some(n) => if n <= usize::MAX {
                    HeaderStep::More(n as usize)
                } else {
                    HeaderStep::Malformed
                },
                None => HeaderStep::Malformed,
            },
            None => HeaderStep::More(known),
        }
    }
}

/// Reads a line of a header, with `known` as the length of the body so far: 0 at the start.
pub fn read_header_line(known: usize, line: &str) -> (r: HeaderStep)
    ensures
        r == header_step(known, line@),
{
    let t: &str = trim(line);
    if t.is_empty() {
        return HeaderStep::End(known);
    }
    match strip_prefix(t, "Content-Length:") {
        Some(value) => match parse_usize(trim(value)) {
            Some(n) => HeaderStep::More(n),
            None => HeaderStep::Malformed,
        },
        None => HeaderStep::More(known),
    }
}

/// A request as JSON-RPC writes it.
pub open spec fn request_tree(id: int, method: Seq<char>, params: JsonTree) -> JsonTree {
    JsonTree::Object(
        seq![
            ("id"@, JsonTree::Integer(id)),
            ("jsonrpc"@, JsonTree::Text("2.0"@)),
            ("method"@, JsonTree::Text(method)),
            ("params"@, params),
        ],
    )
}

/// A notification as JSON-RPC writes it: a request without an id.
pub open spec fn notification_tree(method: Seq<char>, params: JsonTree) -> JsonTree {
    JsonTree::Object(
        seq![
            ("jsonrpc"@, JsonTree::Text("2.0"@)),
            ("method"@, JsonTree::Text(method)),
            ("params"@, params),
        ],
    )
}

proof fn lemma_keys()
    ensures
        !precedes("jsonrpc"@, "id"@),
        !precedes("method"@, "jsonrpc"@),
        !precedes("params"@, "jsonrpc"@),
        !precedes("params"@, "method"@),
        !precedes("method"@, "id"@),
        !precedes("params"@, "id"@),
        "id"@ != "method"@,
        "id"@ != "params"@,
        "jsonrpc"@ != "method"@,
        "jsonrpc"@ != "params"@,
        "method"@ != "params"@,
        "id"@ != "jsonrpc"@,
{
    reveal_strlit("id");
    reveal_strlit("jsonrpc");
    reveal_strlit("method");
    reveal_strlit("params");
    assert("id"@[0] == 'i');
    assert("jsonrpc"@[0] == 'j');
    assert("method"@[0] == 'm');
    assert("params"@[0] == 'p');
}

/// A notification as JSON-RPC writes it.
pub fn notification_message(method: &str, params: Json) -> (r: Json)
    ensures
        r@ == notification_tree(method@, params@),
{
    let mut object: JsonObject = JsonObject::new();
    let ghost tree = params@;
    object.insert("jsonrpc".to_string(), Json::Text("2.0".to_string()));
    object.insert("method".to_string(), Json::Text(method.to_string()));
    object.insert("params".to_string(), params);
    proof {
        lemma_keys();
        let version = ("jsonrpc"@, JsonTree::Text("2.0"@));
        let named = ("method"@, JsonTree::Text(method@));
        let one = seq![version];
        let two = seq![version, named];
        assert(with_field(Seq::empty(), "jsonrpc"@, version.1) =~= one);
        lemma_append_field(Seq::empty(), version, "method"@, named.1);
        assert(with_field(one, "method"@, named.1) =~= two);
        lemma_append_field(one, named, "params"@, tree);
        assert(object@ =~= seq![version, named, ("params"@, tree)]);
    }
    Json::Object(object)
}

/// A request as JSON-RPC writes it.
pub fn request_message(id: i32, method: &str, params: Json) -> (r: Json)
    ensures
        r@ == request_tree(id as int, method@, params@),
{
    let mut object: JsonObject = JsonObject::new();
    let ghost tree = params@;
    object.insert("id".to_string(), Json::Signed(id as i64));
    object.insert("jsonrpc".to_string(), Json::Text("2.0".to_string()));
    object.insert("method".to_string(), Json::Text(method.to_string()));
    object.insert("params".to_string(), params);
    proof {
        lemma_keys();
        let numbered = ("id"@, JsonTree::Integer(id as int));
        let version = ("jsonrpc"@, JsonTree::Text("2.0"@));
        let named = ("method"@, JsonTree::Text(method@));
        let one = seq![numbered];
        let two = seq![numbered, version];
        let three = seq![numbered, version, named];
        assert(with_field(Seq::empty(), "id"@, numbered.1) =~= one);
        lemma_append_field(Seq::empty(), numbered, "jsonrpc"@, version.1);
        assert(with_field(one, "jsonrpc"@, version.1) =~= two);
        lemma_append_field(one, version, "method"@, named.1);
        assert(with_field(two, "method"@, named.1) =~= three);
        lemma_append_field(two, named, "params"@, tree);
        assert(object@ =~= three.push(("params"@, tree)));
        assert(object@ =~= seq![numbered, version, named, ("params"@, tree)]);
    }
    Json::Object(object)
}

/// The ids of the requests of a session.
pub struct RequestCounter {
    next_id: i32,
}

impl RequestCounter {
    /// The id of the next request.
    pub closed spec fn next(self) -> i32 {
        self.next_id
    }

    /// The ids of a new session start at 1.
    pub fn new() -> (r: RequestCounter)
        ensures
            r.next() == 1,
    {
        RequestCounter { next_id: 1 }
    }

    /// The next request, with its id.
    pub fn request(&mut self, method: &str, params: Json) -> (r: (i32, Json))
        requires
            old(self).next() < i32::MAX,
        ensures
            r.0 == old(self).next(),
            r.1@ == request_tree(r.0 as int, method@, params@),
            final(self).next() == old(self).next() + 1,
    {
        let id: i32 = self.next_id;
        self.next_id = id + 1;
        (id, request_message(id, method, params))
    }

    /// Whether another request can be made.
    pub fn can_request(&self) -> (r: bool)
        ensures
            r == (self.next() < i32::MAX),
    {
        self.next_id < i32::MAX
    }
}

/// What a message means to the one who waits for an answer.
pub enum Response {
    /// It answers something else, or nothing.
    Other,
    /// The server failed; the text of its error.
    Failed(String),
    /// The answer.
    Result(Json),
}

/// What a [`Response`] says.
pub enum ResponseView {
    Other,
    Failed(Seq<char>),
    Result(JsonTree),
}

impl Response {
    /// What the response says.
    pub open spec fn view(self) -> ResponseView {
        match self {
            Response::Other => ResponseView::Other,
            Response::Failed(text) => ResponseView::Failed(text@),
            Response::Result(json) => ResponseView::Result(json@),
        }
    }
}

/// What a message means to the one who waits for the answer to the request `id`: it counts if it
/// has that id, an `error` in it goes before the `result`, and a missing result is null.
pub open spec fn response_to(message: JsonTree, id: i32) -> ResponseView {
    match message.field("id"@) {
        Some(found) => if found.signed() == Some(id as i64) {
            match message.field("error"@) {
                Some(error) => ResponseView::Failed("LSP error: "@ + json_text(error)),
                None => match message.field("result"@) {
                    Some(result) => ResponseView::Result(result),
                    None => ResponseView::Result(JsonTree::Null),
                },
            }
        } else {
            ResponseView::Other
        },
        None => ResponseView::Other,
    }
}

/// What a message means to the one who waits for the answer to the request `id`.
pub fn read_response(message: Json, id: i32) -> (r: Response)
    ensures
        r@ == response_to(message@, id),
{
    let matches: bool = match message.get("id") {
        Some(found) => match found.as_i64() {
            Some(n) => n == id as i64,
            None => false,
        },
        None => false,
    };
    if !matches {
        return Response::Other;
    }
    if let Some(error) = message.get("error") {
        let mut text: String = "LSP error: ".to_string();
        text.append(error.to_text().as_str());
        return Response::Failed(text);
    }
    match message {
        Json::Object(object) => {
            let mut object: JsonObject = object;
            match object.insert("result".to_string(), Json::Null) {
                Some(result) => Response::Result(result),
                None => Response::Result(Json::Null),
            }
        },
        _ => Response::Other,
    }
}

/// A key that comes behind the last one goes to the end.
proof fn lemma_append_field(
    fields: Seq<(Seq<char>, JsonTree)>,
    last: (Seq<char>, JsonTree),
    key: Seq<char>,
    value: JsonTree,
)
    requires
        forall|i: int|
            0 <= i < fields.len() ==> !precedes(key, (#[trigger] fields[i]).0) && fields[i].0 != key,
        !precedes(key, last.0),
        last.0 != key,
    ensures
        with_field(fields.push(last), key, value) == fields.push(last).push((key, value)),
    decreases fields.len(),
{
    let all = fields.push(last);
    if fields.len() == 0 {
        assert(all.drop_first() =~= Seq::empty());
        assert(with_field(Seq::empty(), key, value) == seq![(key, value)]);
        assert(with_field(all, key, value) =~= all.push((key, value)));
    } else {
        let rest = fields.drop_first();
        assert(all[0] == fields[0]);
        assert(!precedes(key, fields[0].0));
        assert(all.drop_first() =~= rest.push(last));
        assert forall|i: int| 0 <= i < rest.len() implies !precedes(key, (#[trigger] rest[i]).0)
            && rest[i].0 != key by {
            assert(rest[i] == fields[i + 1]);
        }
        lemma_append_field(rest, last, key, value);
        assert(with_field(all, key, value) =~= all.push((key, value)));
    }
}

/// The header of a message is read back as it was written: its line gives the length of the body,
/// and the empty line ends it.
pub proof fn lemma_header_is_read_back(length: nat, known: usize)
    requires
        length <= usize::MAX,
    ensures
        header_of(length) == ("Content-Length: "@ + decimal_of(length) + "\r\n"@) + "\r\n"@,
        header_step(known, "Content-Length: "@ + decimal_of(length) + "\r\n"@) == HeaderStep::More(
            length as usize,
        ),
        header_step(length as usize, "\r\n"@) == HeaderStep::End(length as usize),
{
    let name = "Content-Length:"@;
    let numeral = decimal_of(length);
    reveal_strlit("Content-Length: ");
    reveal_strlit("Content-Length:");
    reveal_strlit("\r\n");
    reveal_strlit("\r\n\r\n");
    assert("\r\n\r\n"@ =~= "\r\n"@ + "\r\n"@);
    assert(header_of(length) =~= ("Content-Length: "@ + numeral + "\r\n"@) + "\r\n"@);
    lemma_decimal_value(length);
    assert("Content-Length: "@ =~= name + seq![' ']);
    let field = name + seq![' '] + numeral;
    let line = "Content-Length: "@ + numeral + "\r\n"@;
    assert(field.last() == numeral.last());
    assert(field[0] == 'C');
    lemma_trimmed_inner(Seq::empty(), field, "\r\n"@);
    assert(line =~= Seq::empty() + field + "\r\n"@);
    assert(field.subrange(0, name.len() as int) =~= name);
    assert(field.skip(name.len() as int) =~= seq![' '] + numeral + Seq::empty());
    lemma_trimmed_inner(seq![' '], numeral, Seq::empty());
    assert(trimmed(line).len() > 0);
    lemma_trimmed_blank("\r\n"@);
}

/// The answer to one request is not taken for the answer to another.
pub proof fn lemma_answers_are_told_apart(message: JsonTree, one: i32, other: i32)
    requires
        one != other,
        response_to(message, one) !is Other,
    ensures
        response_to(message, other) is Other,
{
}

/// A notification answers no request.
pub proof fn lemma_notification_is_no_answer(method: Seq<char>, params: JsonTree, id: i32)
    ensures
        response_to(notification_tree(method, params), id) is Other,
{
    lemma_keys();
    reveal_strlit("id");
    reveal_strlit("jsonrpc");
    reveal_strlit("method");
    reveal_strlit("params");
    assert("id"@.len() == 2);
    reveal_with_fuel(lookup, 4);
}

/// A message that was sent is read back: the header consists of a line with the length of the body
/// in bytes and of an empty line, and the body follows.
pub proof fn lemma_message_is_read_back(body: Seq<char>)
    requires
        encode_utf8(body).len() <= usize::MAX,
    ensures
        ({
            let length = encode_utf8(body).len();
            let first = "Content-Length: "@ + decimal_of(length) + "\r\n"@;
            &&& framed(body) == first + "\r\n"@ + body
            &&& header_step(0, first) == HeaderStep::More(length as usize)
            &&& header_step(length as usize, "\r\n"@) == HeaderStep::End(length as usize)
        }),
{
    lemma_header_is_read_back(encode_utf8(body).len(), 0);
}

/// A message with the id of a request is the answer to it: an error in it goes before the result, and
/// without either the result is null. Without the id it is the answer to something else.
pub proof fn lemma_answers_have_the_id_of_their_request(message: JsonTree, id: i32)
    ensures
        message.field("id"@) == Some(JsonTree::Integer(id as int)) ==> {
            &&& message.field("error"@) matches Some(error) ==> response_to(message, id)
                == ResponseView::Failed("LSP error: "@ + json_text(error))
            &&& message.field("error"@) is None ==> (message.field("result"@) matches Some(result)
                ==> response_to(message, id) == ResponseView::Result(result))
            &&& message.field("error"@) is None && message.field("result"@) is None ==> response_to(
                message,
                id,
            ) == ResponseView::Result(JsonTree::Null)
        },
        message.field("id"@) != Some(JsonTree::Integer(id as int)) ==> response_to(message, id)
            is Other,
{
}

/// A request says its id, its method and its parameters, and a notification its method and its
/// parameters; both name the version of the protocol.
pub proof fn lemma_messages_say_what_they_are(id: int, method: Seq<char>, params: JsonTree)
    ensures
        request_tree(id, method, params).field("id"@) == Some(JsonTree::Integer(id)),
        request_tree(id, method, params).field("jsonrpc"@) == Some(JsonTree::Text("2.0"@)),
        request_tree(id, method, params).field("method"@) == Some(JsonTree::Text(method)),
        request_tree(id, method, params).field("params"@) == Some(params),
        notification_tree(method, params).field("id"@) is None,
        notification_tree(method, params).field("jsonrpc"@) == Some(JsonTree::Text("2.0"@)),
        notification_tree(method, params).field("method"@) == Some(JsonTree::Text(method)),
        notification_tree(method, params).field("params"@) == Some(params),
{
    lemma_keys();
    let request = request_tree(id, method, params)->Object_0;
    let notification = notification_tree(method, params)->Object_0;
    lemma_lookup_at(request, "id"@, 0);
    lemma_lookup_at(request, "jsonrpc"@, 1);
    lemma_lookup_at(request, "method"@, 2);
    lemma_lookup_at(request, "params"@, 3);
    lemma_lookup_at(notification, "id"@, 3);
    lemma_lookup_at(notification, "jsonrpc"@, 0);
    lemma_lookup_at(notification, "method"@, 1);
    lemma_lookup_at(notification, "params"@, 2);
}

/// A line of a header: a blank one ends it with the length that is known, one with a length gives
/// that, and any other changes nothing. A length that is no number, or too large a one, is refused.
pub proof fn lemma_header_lines_are_read(known: usize, line: Seq<char>, value: Seq<char>)
    ensures
        trimmed(line).len() == 0 ==> header_step(known, line) == HeaderStep::End(known),
        trimmed(line).len() > 0 && !has_prefix(trimmed(line), "Content-Length:"@) ==> header_step(
            known,
            line,
        ) == HeaderStep::More(known),
        trimmed(line) == "Content-Length:"@ + value ==> header_step(known, line) == match numeral_value(
            trimmed(value),
        ) {
            Some(n) => if n <= usize::MAX {
                HeaderStep::More(n as usize)
            } else {
                HeaderStep::Malformed
            },
            None => HeaderStep::Malformed,
        },
{
    reveal_strlit("Content-Length:");
    lemma_texts_stand_in_others(Seq::empty(), "Content-Length:"@, value);
}

/// A server is started by its path. The servers for TypeScript and Python are told to speak over
/// their standard streams, wherever they are; no other is.
pub proof fn lemma_servers_are_started_by_their_paths(
    base: Seq<char>,
    name: Seq<char>,
    server: Seq<char>,
)
    ensures
        mux_arguments(server).len() >= 3,
        mux_arguments(server).take(3) == seq!["client"@, "--server-path"@, server],
        mux_arguments(server).len() == 3 || mux_arguments(server) == seq![
            "client"@,
            "--server-path"@,
            server,
            "--"@,
            "--stdio"@,
        ],
        is_name(name) && name != seq!['.', '.'] ==> (mux_arguments(base + seq!['/'] + name).len()
            == 5 <==> name == "typescript-language-server"@ || name == "pyright-langserver"@ || name
            == "pyright"@),
        is_name(name) && name != seq!['.', '.'] ==> (mux_arguments(name).len() == 5 <==> name
            == "typescript-language-server"@ || name == "pyright-langserver"@ || name
            == "pyright"@),
{
    assert(mux_arguments(server).take(3) =~= seq!["client"@, "--server-path"@, server]);
    if is_name(name) && name != seq!['.', '.'] {
        lemma_last_name_of_path(base, name);
    }
}

} // verus!
