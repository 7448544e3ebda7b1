//! JSON documents, and the answers that Neovim hands on.

use jump::app::neovim::{
    convert_markdown_hover_to_plaintext, neovim_response, parse_neovim_lsp_response,
};
use jump::json::{json_of, read_json, read_json_bytes, value_of, Json, JsonObject};

fn answer(text: &str) -> String {
    parse_neovim_lsp_response(text).unwrap().to_text()
}

#[test]
fn documents_are_read_and_written() {
    let text = " { \"b\" : [1, -2, 2.5, true, null, \"x\\ny\"], \"a\": {} } ";
    let json = read_json(text).unwrap();
    assert_eq!(
        json.to_text(),
        "{\"a\":{},\"b\":[1,-2,2.5,true,null,\"x\\ny\"]}"
    );
    assert_eq!(
        read_json_bytes(text.as_bytes()).unwrap().to_text(),
        json.to_text()
    );
    assert!(read_json("{").is_err());
    assert!(read_json_bytes(b"\xff").is_err());
}

#[test]
fn documents_are_opened_and_sealed() {
    let value: serde_json::Value =
        serde_json::from_str("{\"k\":[18446744073709551615,-9223372036854775808,0.5,\"s\",false,null]}")
            .unwrap();
    assert_eq!(value_of(&json_of(value.clone())), value);
}

#[test]
fn documents_hold_plain_values() {
    let json = read_json("{\"u\":7,\"i\":-7,\"f\":7.0,\"s\":\"t\",\"n\":null,\"big\":18446744073709551615}").unwrap();
    assert_eq!(json.get("u").unwrap().as_u64(), Some(7));
    assert_eq!(json.get("u").unwrap().as_i64(), Some(7));
    assert_eq!(json.get("i").unwrap().as_u64(), None);
    assert_eq!(json.get("i").unwrap().as_i64(), Some(-7));
    assert_eq!(json.get("f").unwrap().as_u64(), None);
    assert_eq!(json.get("f").unwrap().as_i64(), None);
    assert_eq!(json.get("big").unwrap().as_u64(), Some(u64::MAX));
    assert_eq!(json.get("big").unwrap().as_i64(), None);
    assert_eq!(json.get("s").unwrap().as_str(), Some("t"));
    assert_eq!(json.get("u").unwrap().as_str(), None);
    assert!(json.get("n").unwrap().is_null());
    assert!(json.get("x").is_none());
    assert!(Json::Null.get("x").is_none());
    assert_eq!(Json::Signed(5).as_u64(), Some(5));
}

#[test]
fn fields_stand_in_the_order_of_their_keys() {
    let mut object = JsonObject::new();
    assert!(object.insert("m".to_string(), Json::Unsigned(1)).is_none());
    assert!(object.insert("z".to_string(), Json::Unsigned(2)).is_none());
    assert!(object.insert("a".to_string(), Json::Unsigned(3)).is_none());
    let before = object.insert("m".to_string(), Json::Bool(true));
    assert_eq!(before.unwrap().as_u64(), Some(1));
    assert_eq!(object.len(), 3);
    assert_eq!(object.key(0), "a");
    assert_eq!(object.value(2).as_u64(), Some(2));
    assert_eq!(object.take_value(0).as_u64(), Some(3));
    assert!(object.get("a").unwrap().is_null());
    assert_eq!(
        Json::Object(object).to_text(),
        "{\"a\":null,\"m\":true,\"z\":2}"
    );
}

#[test]
fn answers_stand_in_arrays() {
    assert_eq!(answer("[{\"err\":\"e\",\"result\":1},{\"result\":null},{\"result\":[2]}]"), "[2]");
    assert_eq!(answer("[{\"error\":{},\"result\":1}]"), "null");
    assert_eq!(answer("[]"), "null");
    assert_eq!(answer("[1,{\"result\":\"x\"}]"), "\"x\"");
}

#[test]
fn answers_stand_under_client_ids() {
    assert_eq!(answer("{\"2\":{\"result\":{\"a\":1}}}"), "{\"a\":1}");
    assert_eq!(
        answer("{\"1\":{\"result\":null},\"2\":{\"result\":5}}"),
        "5"
    );
    assert_eq!(
        answer("{\"1\":{\"err\":\"e\",\"result\":4},\"2\":{\"result\":5}}"),
        "4"
    );
    assert_eq!(answer("{}"), "null");
    assert_eq!(answer("null"), "null");
    assert_eq!(answer("{\"uri\":\"u\"}"), "{\"uri\":\"u\"}");
    assert_eq!(answer("7"), "7");
    assert!(parse_neovim_lsp_response("[").is_err());
}

#[test]
fn silent_servers_do_not_matter() {
    assert_eq!(
        answer("[{\"err\":1},{\"result\":3}]"),
        answer("[{\"result\":3}]")
    );
}

#[test]
fn markdown_becomes_plain_text() {
    let hover = read_json(
        "{\"contents\":{\"kind\":\"markdown\",\"value\":\"```rust\\na\\n```\\ndocs\"},\"range\":1}",
    )
    .unwrap();
    let plain = convert_markdown_hover_to_plaintext(hover);
    let text = "{\"contents\":{\"kind\":\"plaintext\",\"value\":\"a\"},\"range\":1}";
    assert_eq!(plain.to_text(), text);
    assert_eq!(convert_markdown_hover_to_plaintext(plain).to_text(), text);
    for other in [
        "{\"contents\":{\"kind\":\"plaintext\",\"value\":\"```\\nx\\n```\"}}",
        "{\"contents\":{\"kind\":\"markdown\",\"value\":1}}",
        "{\"contents\":\"```\\nx\\n```\"}",
        "[1]",
    ] {
        let json = read_json(other).unwrap();
        let before = json.to_text();
        assert_eq!(convert_markdown_hover_to_plaintext(json).to_text(), before);
    }
    assert_eq!(
        neovim_response(read_json("[{\"result\":{\"contents\":{\"kind\":\"markdown\",\"value\":\"```\\nq\\n```\"}}}]").unwrap())
            .to_text(),
        "{\"contents\":{\"kind\":\"plaintext\",\"value\":\"q\"}}"
    );
}
