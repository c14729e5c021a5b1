//! The JSON model and the codec: serialization, parsing, and the round trip.

use mcpr::json::Json;
use mcpr::json::json_to_text;
use mcpr::json::text_to_json;
use mcpr::codec::JSONRPCError;
use mcpr::codec::JSONRPCMessage;
use mcpr::codec::JSONRPCRequest;
use mcpr::codec::JSONRPCResponse;
use mcpr::codec::ParseFault;
use mcpr::codec::RequestId;
use mcpr::codec::parse_message;
use mcpr::codec::serialize_message;

fn key(k: &str, v: Json) -> (String, Json) {
    (k.to_string(), v)
}

#[test]
fn json_serializes_canonically() {
    let doc = Json::Obj(vec![
        key("a", Json::Int(-42)),
        key("b", Json::Arr(vec![Json::Null, Json::Bool(true), Json::Bool(false)])),
        key("c", Json::Str("hi".to_string())),
    ]);
    assert_eq!(json_to_text(&doc), "{\"a\":-42,\"b\":[null,true,false],\"c\":\"hi\"}");
}

#[test]
fn json_escapes_strings() {
    let doc = Json::Str("a\"b\\c\nd".to_string());
    assert_eq!(json_to_text(&doc), "\"a\\\"b\\\\c\\u000ad\"");
    let back = text_to_json(&json_to_text(&doc)).unwrap();
    assert_eq!(back, doc);
}

#[test]
fn json_parses_common_escapes() {
    let parsed = text_to_json("\"a\\n\\t\\r\\\"\\\\\\/\\u0041\"").unwrap();
    assert_eq!(parsed, Json::Str("a\n\t\r\"\\/A".to_string()));
}

#[test]
fn json_parses_whitespace_and_nesting() {
    let parsed = text_to_json(" { \"a\" : [ 1 , 2 , { \"b\" : null } ] } ").unwrap();
    assert_eq!(
        parsed,
        Json::Obj(vec![key(
            "a",
            Json::Arr(vec![
                Json::Int(1),
                Json::Int(2),
                Json::Obj(vec![key("b", Json::Null)]),
            ]),
        )])
    );
}

#[test]
fn json_round_trips_integer_extremes() {
    for n in [0i64, 1, -1, i64::MAX, i64::MIN] {
        let text = json_to_text(&Json::Int(n));
        assert_eq!(text_to_json(&text).unwrap(), Json::Int(n));
    }
    assert_eq!(json_to_text(&Json::Int(i64::MIN)), "-9223372036854775808");
}

#[test]
fn json_rejects_what_is_not_a_document() {
    for bad in [
        "",
        "tru",
        "nul",
        "1.5",
        "1e9",
        "9223372036854775808",
        "-9223372036854775809",
        "\"unterminated",
        "[1,]",
        "{\"a\"}",
        "{\"a\":1,}",
        "[1] trailing",
        "\"bad escape \\q\"",
    ] {
        assert!(text_to_json(bad).is_none(), "accepted: {}", bad);
    }
}

#[test]
fn json_accepts_empty_containers() {
    assert_eq!(text_to_json("[]").unwrap(), Json::Arr(vec![]));
    assert_eq!(text_to_json("{ }").unwrap(), Json::Obj(vec![]));
}

#[test]
fn request_round_trips() {
    let msg = JSONRPCMessage::Request(JSONRPCRequest::new(
        RequestId::Number(7),
        "tool_call".to_string(),
        Some(Json::Obj(vec![key("name", Json::Str("echo".to_string()))])),
    ));
    let text = serialize_message(&msg);
    assert_eq!(
        text,
        "{\"jsonrpc\":\"2.0\",\"id\":7,\"method\":\"tool_call\",\"params\":{\"name\":\"echo\"}}"
    );
    assert_eq!(parse_message(&text).unwrap(), msg);
}

#[test]
fn response_round_trips() {
    let msg = JSONRPCMessage::Response(JSONRPCResponse::new(
        RequestId::Text("abc".to_string()),
        Json::Obj(vec![key("result", Json::Int(3))]),
    ));
    let text = serialize_message(&msg);
    assert_eq!(parse_message(&text).unwrap(), msg);
}

#[test]
fn error_round_trips() {
    let msg = JSONRPCMessage::Error(JSONRPCError::new(
        RequestId::Number(1),
        -32601,
        "Method not found: nope".to_string(),
        Some(Json::Null),
    ));
    let text = serialize_message(&msg);
    assert_eq!(parse_message(&text).unwrap(), msg);

    let anonymous = JSONRPCMessage::Error(JSONRPCError {
        id: None,
        code: -32700,
        message: "Parse error".to_string(),
        data: None,
    });
    let text = serialize_message(&anonymous);
    assert_eq!(text, "{\"jsonrpc\":\"2.0\",\"id\":null,\"error\":{\"code\":-32700,\"message\":\"Parse error\"}}");
    assert_eq!(parse_message(&text).unwrap(), anonymous);
}

#[test]
fn parse_classifies_malformed_text() {
    assert_eq!(parse_message("not json").unwrap_err(), ParseFault::Malformed);
    assert_eq!(parse_message("").unwrap_err(), ParseFault::Malformed);
}

#[test]
fn parse_classifies_invalid_documents() {
    // A document, but not a message.
    assert_eq!(parse_message("[1,2]").unwrap_err(), ParseFault::Invalid(None));
    // Wrong version, but the id is salvaged for the error reply.
    assert_eq!(
        parse_message("{\"jsonrpc\":\"1.0\",\"id\":9,\"method\":\"x\"}").unwrap_err(),
        ParseFault::Invalid(Some(RequestId::Number(9)))
    );
    // No method, result or error member.
    assert_eq!(
        parse_message("{\"jsonrpc\":\"2.0\",\"id\":9}").unwrap_err(),
        ParseFault::Invalid(Some(RequestId::Number(9)))
    );
    // A request must carry an id.
    assert_eq!(
        parse_message("{\"jsonrpc\":\"2.0\",\"method\":\"x\"}").unwrap_err(),
        ParseFault::Invalid(None)
    );
}

#[test]
fn parse_accepts_interleaved_member_order() {
    let msg = parse_message("{\"method\":\"ping\",\"id\":2,\"jsonrpc\":\"2.0\"}").unwrap();
    match msg {
        JSONRPCMessage::Request(req) => {
            assert_eq!(req.id, RequestId::Number(2));
            assert_eq!(req.method, "ping");
            assert_eq!(req.params, None);
        }
        other => panic!("not a request: {:?}", other),
    }
}


#[test]
fn the_first_binding_of_a_repeated_key_wins() {
    let parsed = text_to_json("{\"a\":1,\"a\":2}").unwrap();
    assert_eq!(
        parsed,
        Json::Obj(vec![key("a", Json::Int(1)), key("a", Json::Int(2))])
    );
    let msg = parse_message("{\"jsonrpc\":\"2.0\",\"id\":1,\"id\":2,\"method\":\"m\"}").unwrap();
    match msg {
        JSONRPCMessage::Request(req) => assert_eq!(req.id, RequestId::Number(1)),
        other => panic!("not a request: {:?}", other),
    }
}

#[test]
fn string_ids_round_trip() {
    let msg = JSONRPCMessage::Request(JSONRPCRequest::new(
        RequestId::Text("req-77".to_string()),
        "shutdown".to_string(),
        None,
    ));
    let text = serialize_message(&msg);
    assert_eq!(text, "{\"jsonrpc\":\"2.0\",\"id\":\"req-77\",\"method\":\"shutdown\"}");
    assert_eq!(parse_message(&text).unwrap(), msg);
}

#[test]
fn null_ids_on_errors_mean_no_id() {
    let msg = parse_message(
        "{\"jsonrpc\":\"2.0\",\"id\":null,\"error\":{\"code\":-32700,\"message\":\"x\"}}",
    )
    .unwrap();
    match msg {
        JSONRPCMessage::Error(err) => assert_eq!(err.id, None),
        other => panic!("not an error: {:?}", other),
    }
}
