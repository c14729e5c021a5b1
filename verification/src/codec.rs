//! The JSON-RPC codec: the three message shapes, their serialization, and
//! the classification of incoming documents, with the standard error codes
//! for what cannot be classified.

use vstd::prelude::*;
use crate::json::Json;
use crate::json::JsonV;
use crate::json::json_view;
use crate::json::member_views_of;
use crate::json::p_document;
use crate::json::ser_jsonv;
use crate::json::lemma_ser_json_view;
use crate::json::lemma_view_wf;
use crate::json::lemma_member_views_of_index;
use crate::json::lemma_member_views_of_len;
use crate::json::json_to_text;
use crate::json::text_to_json;
use crate::text::str_to_chars;
use crate::text::chars_eq;

verus! {

broadcast use vstd::seq::group_seq_axioms, vstd::std_specs::vec::group_vec_axioms;

/// The correlation identifier of a request: a number or a string.
#[derive(Debug, Clone, PartialEq, Eq)]
pub enum RequestId {
    Number(i64),
    Text(String),
}

/// A request: a method to invoke, with optional parameters.
#[derive(Debug, PartialEq, Eq)]
pub struct JSONRPCRequest {
    pub id: RequestId,
    pub method: String,
    pub params: Option<Json>,
}

/// A successful response, carrying the id of the request it answers.
#[derive(Debug, PartialEq, Eq)]
pub struct JSONRPCResponse {
    pub id: RequestId,
    pub result: Json,
}

/// An error response; the id is absent when the request's id could not be
/// recovered.
#[derive(Debug, PartialEq, Eq)]
pub struct JSONRPCError {
    pub id: Option<RequestId>,
    pub code: i64,
    pub message: String,
    pub data: Option<Json>,
}

/// Any message of the protocol.
#[derive(Debug, PartialEq, Eq)]
pub enum JSONRPCMessage {
    Request(JSONRPCRequest),
    Response(JSONRPCResponse),
    Error(JSONRPCError),
}

/// Parse error: `-32700`.
pub const CODE_PARSE_ERROR: i64 = -32700;

/// Invalid request: `-32600`.
pub const CODE_INVALID_REQUEST: i64 = -32600;

/// Method not found: `-32601`.
pub const CODE_METHOD_NOT_FOUND: i64 = -32601;

/// Invalid params: `-32602`.
pub const CODE_INVALID_PARAMS: i64 = -32602;

/// Internal error: `-32603`.
pub const CODE_INTERNAL_ERROR: i64 = -32603;

/// Application-level execution error: `-32000`.
pub const CODE_APPLICATION_ERROR: i64 = -32000;

// ---------------------------------------------------------------------------
// Denotations.
// ---------------------------------------------------------------------------

/// The denotation of a message.
pub enum MsgV {
    Request { id: JsonV, method: Seq<char>, params: Option<JsonV> },
    Response { id: JsonV, result: JsonV },
    Error { id: Option<JsonV>, code: int, message: Seq<char>, data: Option<JsonV> },
}

/// The denotation of an id.
pub open spec fn id_view(id: RequestId) -> JsonV {
    match id {
        RequestId::Number(n) => JsonV::Int(n as int),
        RequestId::Text(s) => JsonV::Str(s@),
    }
}

/// The denotation of a message value.
pub open spec fn msg_view(m: JSONRPCMessage) -> MsgV {
    match m {
        JSONRPCMessage::Request(r) => MsgV::Request {
            id: id_view(r.id),
            method: r.method@,
            params: match r.params {
                Some(p) => Some(json_view(p)),
                None => None,
            },
        },
        JSONRPCMessage::Response(r) => MsgV::Response {
            id: id_view(r.id),
            result: json_view(r.result),
        },
        JSONRPCMessage::Error(e) => MsgV::Error {
            id: match e.id {
                Some(i) => Some(id_view(i)),
                None => None,
            },
            code: e.code as int,
            message: e.message@,
            data: match e.data {
                Some(d) => Some(json_view(d)),
                None => None,
            },
        },
    }
}

// ---------------------------------------------------------------------------
// The wire shape of each message.
// ---------------------------------------------------------------------------

pub open spec fn k_jsonrpc() -> Seq<char> {
    seq!['j', 's', 'o', 'n', 'r', 'p', 'c']
}

pub open spec fn k_id() -> Seq<char> {
    seq!['i', 'd']
}

pub open spec fn k_method() -> Seq<char> {
    seq!['m', 'e', 't', 'h', 'o', 'd']
}

pub open spec fn k_params() -> Seq<char> {
    seq!['p', 'a', 'r', 'a', 'm', 's']
}

pub open spec fn k_result() -> Seq<char> {
    seq!['r', 'e', 's', 'u', 'l', 't']
}

pub open spec fn k_error() -> Seq<char> {
    seq!['e', 'r', 'r', 'o', 'r']
}

pub open spec fn k_code() -> Seq<char> {
    seq!['c', 'o', 'd', 'e']
}

pub open spec fn k_message() -> Seq<char> {
    seq!['m', 'e', 's', 's', 'a', 'g', 'e']
}

pub open spec fn k_data() -> Seq<char> {
    seq!['d', 'a', 't', 'a']
}

/// The protocol version every message carries.
pub open spec fn version_chars() -> Seq<char> {
    seq!['2', '.', '0']
}

/// An optional member: present exactly when the value is.
pub open spec fn opt_member(k: Seq<char>, o: Option<JsonV>) -> Seq<(Seq<char>, JsonV)> {
    match o {
        Some(v) => seq![(k, v)],
        None => Seq::empty(),
    }
}

/// An absent id is written as null.
pub open spec fn id_or_null(id: Option<JsonV>) -> JsonV {
    match id {
        Some(i) => i,
        None => JsonV::Null,
    }
}

/// The document a message is serialized as.
pub open spec fn doc_view(w: MsgV) -> JsonV {
    match w {
        MsgV::Request { id, method, params } => JsonV::Obj(
            seq![
                (k_jsonrpc(), JsonV::Str(version_chars())),
                (k_id(), id),
                (k_method(), JsonV::Str(method)),
            ] + opt_member(k_params(), params),
        ),
        MsgV::Response { id, result } => JsonV::Obj(
            seq![
                (k_jsonrpc(), JsonV::Str(version_chars())),
                (k_id(), id),
                (k_result(), result),
            ],
        ),
        MsgV::Error { id, code, message, data } => JsonV::Obj(
            seq![
                (k_jsonrpc(), JsonV::Str(version_chars())),
                (k_id(), id_or_null(id)),
                (
                    k_error(),
                    JsonV::Obj(
                        seq![(k_code(), JsonV::Int(code)), (k_message(), JsonV::Str(message))]
                            + opt_member(k_data(), data),
                    ),
                ),
            ],
        ),
    }
}

// ---------------------------------------------------------------------------
// Classification of an incoming document.
// ---------------------------------------------------------------------------

/// Look a key up among an object's members; the first binding wins.
pub open spec fn jv_lookup(ms: Seq<(Seq<char>, JsonV)>, k: Seq<char>) -> Option<JsonV>
    decreases ms.len(),
{
    if ms.len() == 0 { None }
    else if ms[0].0 == k { Some(ms[0].1) }
    else { jv_lookup(ms.drop_first(), k) }
}

/// A value that can serve as a correlation id.
pub open spec fn id_ok(v: JsonV) -> bool {
    match v {
        JsonV::Int(n) => -0x8000_0000_0000_0000 <= n <= 0x7fff_ffff_ffff_ffff,
        JsonV::Str(_) => true,
        _ => false,
    }
}

/// The id to attach to an invalid-request error: whatever usable id the
/// document carried.
pub open spec fn salvaged_id(idf: Option<JsonV>) -> Option<JsonV> {
    match idf {
        Some(v) => if id_ok(v) { Some(v) } else { None },
        None => None,
    }
}

/// Classify a document as one of the three message shapes, or reject it as
/// an invalid request carrying whatever id could be salvaged.
pub open spec fn classify_v(doc: JsonV) -> Result<MsgV, Option<JsonV>> {
    match doc {
        JsonV::Obj(ms) => {
            let idf = jv_lookup(ms, k_id());
            if jv_lookup(ms, k_jsonrpc()) != Some(JsonV::Str(version_chars())) {
                Err(salvaged_id(idf))
            } else {
                match jv_lookup(ms, k_method()) {
                    Some(mv) => match (mv, idf) {
                        (JsonV::Str(method), Some(idv)) => if id_ok(idv) {
                            Ok(
                                MsgV::Request {
                                    id: idv,
                                    method: method,
                                    params: jv_lookup(ms, k_params()),
                                },
                            )
                        } else {
                            Err(salvaged_id(idf))
                        },
                        _ => Err(salvaged_id(idf)),
                    },
                    None => match jv_lookup(ms, k_result()) {
                        Some(rv) => match idf {
                            Some(idv) => if id_ok(idv) {
                                Ok(MsgV::Response { id: idv, result: rv })
                            } else {
                                Err(salvaged_id(idf))
                            },
                            None => Err(salvaged_id(idf)),
                        },
                        None => match jv_lookup(ms, k_error()) {
                            Some(JsonV::Obj(eo)) => match (
                                jv_lookup(eo, k_code()),
                                jv_lookup(eo, k_message()),
                            ) {
                                (Some(JsonV::Int(code)), Some(JsonV::Str(message))) => if -0x8000_0000_0000_0000
                                    <= code <= 0x7fff_ffff_ffff_ffff {
                                    match idf {
                                        None => Ok(
                                            MsgV::Error {
                                                id: None,
                                                code,
                                                message,
                                                data: jv_lookup(eo, k_data()),
                                            },
                                        ),
                                        Some(JsonV::Null) => Ok(
                                            MsgV::Error {
                                                id: None,
                                                code,
                                                message,
                                                data: jv_lookup(eo, k_data()),
                                            },
                                        ),
                                        Some(idv) => if id_ok(idv) {
                                            Ok(
                                                MsgV::Error {
                                                    id: Some(idv),
                                                    code,
                                                    message,
                                                    data: jv_lookup(eo, k_data()),
                                                },
                                            )
                                        } else {
                                            Err(salvaged_id(idf))
                                        },
                                    }
                                } else {
                                    Err(salvaged_id(idf))
                                },
                                _ => Err(salvaged_id(idf)),
                            },
                            _ => Err(salvaged_id(idf)),
                        },
                    },
                }
            }
        }
        _ => Err(None),
    }
}

/// How parsing a line of text can fail.
pub enum WireFaultV {
    /// The text is not a JSON document: `-32700`, id irrecoverable.
    Malformed,
    /// The document is not a message: `-32600`, with the salvaged id.
    Invalid(Option<JsonV>),
}

/// What any line of text denotes to the codec.
pub open spec fn spec_parse_message(t: Seq<char>) -> Result<MsgV, WireFaultV> {
    match p_document(t) {
        None => Err(WireFaultV::Malformed),
        Some(v) => match classify_v(v) {
            Ok(w) => Ok(w),
            Err(i) => Err(WireFaultV::Invalid(i)),
        },
    }
}

/// The executable form of a classification failure.
#[derive(Debug, PartialEq, Eq)]
pub enum ParseFault {
    /// The text is not a JSON document: `-32700`, id irrecoverable.
    Malformed,
    /// The document is not a message: `-32600`, with the salvaged id.
    Invalid(Option<RequestId>),
}

/// The denotation of a salvaged executable id.
pub open spec fn opt_id_view(oid: Option<RequestId>) -> Option<JsonV> {
    match oid {
        Some(i) => Some(id_view(i)),
        None => None,
    }
}

// ---------------------------------------------------------------------------
// Executable lookups and key literals.
// ---------------------------------------------------------------------------

/// Look a key up in an object's members; the first binding wins.
fn obj_get<'a>(ms: &'a Vec<(String, Json)>, key: &Vec<char>) -> (r: Option<&'a Json>)
    ensures
        match r {
            Some(j) => jv_lookup(member_views_of(ms@), key@) == Some(json_view(*j)),
            None => jv_lookup(member_views_of(ms@), key@).is_none(),
        },
{
    let n = ms.len();
    let mut i: usize = 0;
    proof {
        assert(member_views_of(ms@).skip(0) =~= member_views_of(ms@));
    }
    while i < n
        invariant
            n == ms.len(),
            i <= n,
            jv_lookup(member_views_of(ms@), key@) == jv_lookup(
                member_views_of(ms@).skip(i as int),
                key@,
            ),
        decreases n - i,
    {
        proof {
            lemma_member_views_of_len(ms@);
            lemma_member_views_of_index(ms@, i as int);
            assert(member_views_of(ms@).skip(i as int)[0] == member_views_of(ms@)[i as int]);
        }
        let kc = str_to_chars(ms[i].0.as_str());
        if chars_eq(&kc, key) {
            return Some(&ms[i].1);
        }
        proof {
            assert(member_views_of(ms@).skip(i as int).drop_first() =~= member_views_of(
                ms@,
            ).skip(i + 1 as int));
        }
        i = i + 1;
    }
    proof {
        lemma_member_views_of_len(ms@);
        assert(member_views_of(ms@).skip(i as int).len() == 0);
    }
    None
}

fn jsonrpc_key_chars() -> (v: Vec<char>)
    ensures
        v@ == k_jsonrpc(),
{
    let v = vec!['j', 's', 'o', 'n', 'r', 'p', 'c'];
    proof {
        assert(v@ =~= k_jsonrpc());
    }
    v
}

fn id_key_chars() -> (v: Vec<char>)
    ensures
        v@ == k_id(),
{
    let v = vec!['i', 'd'];
    proof {
        assert(v@ =~= k_id());
    }
    v
}

fn method_key_chars() -> (v: Vec<char>)
    ensures
        v@ == k_method(),
{
    let v = vec!['m', 'e', 't', 'h', 'o', 'd'];
    proof {
        assert(v@ =~= k_method());
    }
    v
}

fn params_key_chars() -> (v: Vec<char>)
    ensures
        v@ == k_params(),
{
    let v = vec!['p', 'a', 'r', 'a', 'm', 's'];
    proof {
        assert(v@ =~= k_params());
    }
    v
}

fn result_key_chars() -> (v: Vec<char>)
    ensures
        v@ == k_result(),
{
    let v = vec!['r', 'e', 's', 'u', 'l', 't'];
    proof {
        assert(v@ =~= k_result());
    }
    v
}

fn error_key_chars() -> (v: Vec<char>)
    ensures
        v@ == k_error(),
{
    let v = vec!['e', 'r', 'r', 'o', 'r'];
    proof {
        assert(v@ =~= k_error());
    }
    v
}

fn code_key_chars() -> (v: Vec<char>)
    ensures
        v@ == k_code(),
{
    let v = vec!['c', 'o', 'd', 'e'];
    proof {
        assert(v@ =~= k_code());
    }
    v
}

fn message_key_chars() -> (v: Vec<char>)
    ensures
        v@ == k_message(),
{
    let v = vec!['m', 'e', 's', 's', 'a', 'g', 'e'];
    proof {
        assert(v@ =~= k_message());
    }
    v
}

fn data_key_chars() -> (v: Vec<char>)
    ensures
        v@ == k_data(),
{
    let v = vec!['d', 'a', 't', 'a'];
    proof {
        assert(v@ =~= k_data());
    }
    v
}

fn version_value_chars() -> (v: Vec<char>)
    ensures
        v@ == version_chars(),
{
    let v = vec!['2', '.', '0'];
    proof {
        assert(v@ =~= version_chars());
    }
    v
}

fn jsonrpc_key_string() -> (s: String)
    ensures
        s@ == k_jsonrpc(),
{
    let s = "jsonrpc".to_owned();
    proof {
        reveal_strlit("jsonrpc");
        assert("jsonrpc"@ =~= k_jsonrpc());
    }
    s
}

fn id_key_string() -> (s: String)
    ensures
        s@ == k_id(),
{
    let s = "id".to_owned();
    proof {
        reveal_strlit("id");
        assert("id"@ =~= k_id());
    }
    s
}

fn method_key_string() -> (s: String)
    ensures
        s@ == k_method(),
{
    let s = "method".to_owned();
    proof {
        reveal_strlit("method");
        assert("method"@ =~= k_method());
    }
    s
}

fn params_key_string() -> (s: String)
    ensures
        s@ == k_params(),
{
    let s = "params".to_owned();
    proof {
        reveal_strlit("params");
        assert("params"@ =~= k_params());
    }
    s
}

fn result_key_string() -> (s: String)
    ensures
        s@ == k_result(),
{
    let s = "result".to_owned();
    proof {
        reveal_strlit("result");
        assert("result"@ =~= k_result());
    }
    s
}

fn error_key_string() -> (s: String)
    ensures
        s@ == k_error(),
{
    let s = "error".to_owned();
    proof {
        reveal_strlit("error");
        assert("error"@ =~= k_error());
    }
    s
}

fn code_key_string() -> (s: String)
    ensures
        s@ == k_code(),
{
    let s = "code".to_owned();
    proof {
        reveal_strlit("code");
        assert("code"@ =~= k_code());
    }
    s
}

fn message_key_string() -> (s: String)
    ensures
        s@ == k_message(),
{
    let s = "message".to_owned();
    proof {
        reveal_strlit("message");
        assert("message"@ =~= k_message());
    }
    s
}

fn data_key_string() -> (s: String)
    ensures
        s@ == k_data(),
{
    let s = "data".to_owned();
    proof {
        reveal_strlit("data");
        assert("data"@ =~= k_data());
    }
    s
}

fn version_string() -> (s: String)
    ensures
        s@ == version_chars(),
{
    let s = "2.0".to_owned();
    proof {
        reveal_strlit("2.0");
        assert("2.0"@ =~= version_chars());
    }
    s
}

// ---------------------------------------------------------------------------
// Classification, executable.
// ---------------------------------------------------------------------------

/// The id a value can serve as, if any.
fn id_of_json(j: &Json) -> (r: Option<RequestId>)
    ensures
        match r {
            Some(id) => id_ok(json_view(*j)) && id_view(id) == json_view(*j),
            None => !id_ok(json_view(*j)),
        },
{
    match j {
        Json::Int(n) => Some(RequestId::Number(*n)),
        Json::Str(s) => Some(RequestId::Text(s.clone())),
        _ => None,
    }
}

/// The id to attach to an invalid-request error.
fn salvage_id_of(idf: Option<&Json>) -> (r: Option<RequestId>)
    ensures
        opt_id_view(r) == salvaged_id(
            match idf {
                Some(j) => Some(json_view(*j)),
                None => None,
            },
        ),
{
    match idf {
        Some(j) => id_of_json(j),
        None => None,
    }
}

/// Classify a parsed document as a message, or reject it.
pub fn classify_doc(doc: Json) -> (r: Result<JSONRPCMessage, ParseFault>)
    ensures
        ({
            let c = classify_v(json_view(doc));
            match r {
                Ok(m) => c == Ok::<MsgV, Option<JsonV>>(msg_view(m)),
                Err(ParseFault::Invalid(oid)) => c == Err::<MsgV, Option<JsonV>>(opt_id_view(oid)),
                Err(ParseFault::Malformed) => false,
            }
        }),
{
    let ms = match doc {
        Json::Obj(ms) => ms,
        _ => {
            return Err(ParseFault::Invalid(None));
        }
    };
    let idf = obj_get(&ms, &id_key_chars());
    let ghost idfv: Option<JsonV> = match idf {
        Some(j) => Some(json_view(*j)),
        None => None,
    };
    let ver = obj_get(&ms, &jsonrpc_key_chars());
    let ver_ok = match ver {
        Some(vj) => match vj {
            Json::Str(s) => {
                let sc = str_to_chars(s.as_str());
                chars_eq(&sc, &version_value_chars())
            }
            _ => false,
        },
        None => false,
    };
    if !ver_ok {
        return Err(ParseFault::Invalid(salvage_id_of(idf)));
    }
    let mth = obj_get(&ms, &method_key_chars());
    match mth {
        Some(mj) => match mj {
            Json::Str(mstr) => match idf {
                Some(idj) => match id_of_json(idj) {
                    Some(id) => {
                        let params = match obj_get(&ms, &params_key_chars()) {
                            Some(p) => Some(p.duplicate()),
                            None => None,
                        };
                        Ok(
                            JSONRPCMessage::Request(
                                JSONRPCRequest { id, method: mstr.clone(), params },
                            ),
                        )
                    }
                    None => Err(ParseFault::Invalid(salvage_id_of(idf))),
                },
                None => Err(ParseFault::Invalid(salvage_id_of(idf))),
            },
            _ => Err(ParseFault::Invalid(salvage_id_of(idf))),
        },
        None => match obj_get(&ms, &result_key_chars()) {
            Some(rj) => match idf {
                Some(idj) => match id_of_json(idj) {
                    Some(id) => Ok(
                        JSONRPCMessage::Response(JSONRPCResponse { id, result: rj.duplicate() }),
                    ),
                    None => Err(ParseFault::Invalid(salvage_id_of(idf))),
                },
                None => Err(ParseFault::Invalid(salvage_id_of(idf))),
            },
            None => match obj_get(&ms, &error_key_chars()) {
                Some(ej) => match ej {
                    Json::Obj(eo) => {
                        let codef = obj_get(eo, &code_key_chars());
                        let msgf = obj_get(eo, &message_key_chars());
                        match codef {
                            Some(cj) => match cj {
                                Json::Int(code) => match msgf {
                                    Some(mj2) => match mj2 {
                                        Json::Str(msgs) => {
                                            let data = match obj_get(eo, &data_key_chars()) {
                                                Some(d) => Some(d.duplicate()),
                                                None => None,
                                            };
                                            match idf {
                                                None => Ok(
                                                    JSONRPCMessage::Error(
                                                        JSONRPCError {
                                                            id: None,
                                                            code: *code,
                                                            message: msgs.clone(),
                                                            data,
                                                        },
                                                    ),
                                                ),
                                                Some(idj) => match idj {
                                                    Json::Null => Ok(
                                                        JSONRPCMessage::Error(
                                                            JSONRPCError {
                                                                id: None,
                                                                code: *code,
                                                                message: msgs.clone(),
                                                                data,
                                                            },
                                                        ),
                                                    ),
                                                    _ => match id_of_json(idj) {
                                                        Some(id) => Ok(
                                                            JSONRPCMessage::Error(
                                                                JSONRPCError {
                                                                    id: Some(id),
                                                                    code: *code,
                                                                    message: msgs.clone(),
                                                                    data,
                                                                },
                                                            ),
                                                        ),
                                                        None => Err(
                                                            ParseFault::Invalid(salvage_id_of(idf)),
                                                        ),
                                                    },
                                                },
                                            }
                                        }
                                        _ => Err(ParseFault::Invalid(salvage_id_of(idf))),
                                    },
                                    None => Err(ParseFault::Invalid(salvage_id_of(idf))),
                                },
                                _ => Err(ParseFault::Invalid(salvage_id_of(idf))),
                            },
                            None => Err(ParseFault::Invalid(salvage_id_of(idf))),
                        }
                    }
                    _ => Err(ParseFault::Invalid(salvage_id_of(idf))),
                },
                None => Err(ParseFault::Invalid(salvage_id_of(idf))),
            },
        },
    }
}

/// Parse a line of text as one message, as the wire format defines it.
pub fn parse_message(text: &str) -> (r: Result<JSONRPCMessage, ParseFault>)
    ensures
        ({
            let sp = spec_parse_message(text@);
            match r {
                Ok(m) => sp == Ok::<MsgV, WireFaultV>(msg_view(m)),
                Err(ParseFault::Malformed) => sp == Err::<MsgV, WireFaultV>(WireFaultV::Malformed),
                Err(ParseFault::Invalid(oid)) => sp == Err::<MsgV, WireFaultV>(
                    WireFaultV::Invalid(opt_id_view(oid)),
                ),
            }
        }),
{
    match text_to_json(text) {
        None => Err(ParseFault::Malformed),
        Some(doc) => classify_doc(doc),
    }
}

// ---------------------------------------------------------------------------
// Construction and serialization.
// ---------------------------------------------------------------------------

impl JSONRPCRequest {
    /// A request with the given id, method and parameters.
    pub fn new(id: RequestId, method: String, params: Option<Json>) -> (r: Self)
        ensures
            r.id == id,
            r.method == method,
            r.params == params,
    {
        JSONRPCRequest { id, method, params }
    }
}

impl JSONRPCResponse {
    /// A response answering the request with the given id.
    pub fn new(id: RequestId, result: Json) -> (r: Self)
        ensures
            r.id == id,
            r.result == result,
    {
        JSONRPCResponse { id, result }
    }
}

impl JSONRPCError {
    /// An error answering the request with the given id.
    pub fn new(id: RequestId, code: i64, message: String, data: Option<Json>) -> (r: Self)
        ensures
            r.id == Some(id),
            r.code == code,
            r.message == message,
            r.data == data,
    {
        JSONRPCError { id: Some(id), code, message, data }
    }
}

/// The wire value of an id.
fn id_to_json(id: &RequestId) -> (j: Json)
    ensures
        json_view(j) == id_view(*id),
{
    match id {
        RequestId::Number(n) => Json::Int(*n),
        RequestId::Text(s) => Json::Str(s.clone()),
    }
}

/// The document a message is sent as.
pub fn message_to_json(m: &JSONRPCMessage) -> (doc: Json)
    ensures
        json_view(doc) == doc_view(msg_view(*m)),
{
    match m {
        JSONRPCMessage::Request(r) => {
            let mut ms: Vec<(String, Json)> = Vec::new();
            ms.push((jsonrpc_key_string(), Json::Str(version_string())));
            ms.push((id_key_string(), id_to_json(&r.id)));
            ms.push((method_key_string(), Json::Str(r.method.clone())));
            match &r.params {
                Some(p) => {
                    ms.push((params_key_string(), p.duplicate()));
                    proof {
                        lemma_member_views_of_len(ms@);
                        lemma_member_views_of_index(ms@, 0);
                        lemma_member_views_of_index(ms@, 1);
                        lemma_member_views_of_index(ms@, 2);
                        lemma_member_views_of_index(ms@, 3);
                        assert(member_views_of(ms@) =~= seq![
                            (k_jsonrpc(), JsonV::Str(version_chars())),
                            (k_id(), id_view(r.id)),
                            (k_method(), JsonV::Str(r.method@)),
                        ] + seq![(k_params(), json_view(*p))]);
                        assert(msg_view(*m)->Request_params == Some(json_view(*p)));
                        assert(opt_member(k_params(), msg_view(*m)->Request_params) =~= seq![
                            (k_params(), json_view(*p)),
                        ]);
                        assert(json_view(Json::Obj(ms)) == doc_view(msg_view(*m)));
                    }
                }
                None => {
                    proof {
                        lemma_member_views_of_len(ms@);
                        lemma_member_views_of_index(ms@, 0);
                        lemma_member_views_of_index(ms@, 1);
                        lemma_member_views_of_index(ms@, 2);
                        assert(member_views_of(ms@) =~= seq![
                            (k_jsonrpc(), JsonV::Str(version_chars())),
                            (k_id(), id_view(r.id)),
                            (k_method(), JsonV::Str(r.method@)),
                        ] + Seq::<(Seq<char>, JsonV)>::empty());
                        assert(msg_view(*m)->Request_params is None);
                        assert(opt_member(k_params(), msg_view(*m)->Request_params) =~= Seq::<(
                            Seq<char>,
                            JsonV,
                        )>::empty());
                        assert(json_view(Json::Obj(ms)) == doc_view(msg_view(*m)));
                    }
                }
            }
            Json::Obj(ms)
        }
        JSONRPCMessage::Response(r) => {
            let mut ms: Vec<(String, Json)> = Vec::new();
            ms.push((jsonrpc_key_string(), Json::Str(version_string())));
            ms.push((id_key_string(), id_to_json(&r.id)));
            ms.push((result_key_string(), r.result.duplicate()));
            proof {
                lemma_member_views_of_len(ms@);
                lemma_member_views_of_index(ms@, 0);
                lemma_member_views_of_index(ms@, 1);
                lemma_member_views_of_index(ms@, 2);
                assert(member_views_of(ms@) =~= seq![
                    (k_jsonrpc(), JsonV::Str(version_chars())),
                    (k_id(), id_view(r.id)),
                    (k_result(), json_view(r.result)),
                ]);
                assert(json_view(Json::Obj(ms)) == doc_view(msg_view(*m)));
            }
            Json::Obj(ms)
        }
        JSONRPCMessage::Error(e) => {
            let mut eo: Vec<(String, Json)> = Vec::new();
            eo.push((code_key_string(), Json::Int(e.code)));
            eo.push((message_key_string(), Json::Str(e.message.clone())));
            match &e.data {
                Some(d) => {
                    eo.push((data_key_string(), d.duplicate()));
                    proof {
                        lemma_member_views_of_len(eo@);
                        lemma_member_views_of_index(eo@, 0);
                        lemma_member_views_of_index(eo@, 1);
                        lemma_member_views_of_index(eo@, 2);
                        assert(member_views_of(eo@) =~= seq![
                            (k_code(), JsonV::Int(e.code as int)),
                            (k_message(), JsonV::Str(e.message@)),
                            (k_data(), json_view(*d)),
                        ]);
                    }
                }
                None => {
                    proof {
                        lemma_member_views_of_len(eo@);
                        lemma_member_views_of_index(eo@, 0);
                        lemma_member_views_of_index(eo@, 1);
                        assert(member_views_of(eo@) =~= seq![
                            (k_code(), JsonV::Int(e.code as int)),
                            (k_message(), JsonV::Str(e.message@)),
                        ]);
                    }
                }
            }
            proof {
                match &e.data {
                    Some(d) => {
                        assert(msg_view(*m)->Error_data == Some(json_view(*d)));
                        assert(opt_member(k_data(), msg_view(*m)->Error_data) =~= seq![
                            (k_data(), json_view(*d)),
                        ]);
                    }
                    None => {
                        assert(msg_view(*m)->Error_data is None);
                        assert(opt_member(k_data(), msg_view(*m)->Error_data) =~= Seq::<(
                            Seq<char>,
                            JsonV,
                        )>::empty());
                    }
                }
                assert(member_views_of(eo@) =~= seq![
                    (k_code(), JsonV::Int(e.code as int)),
                    (k_message(), JsonV::Str(e.message@)),
                ] + opt_member(k_data(), msg_view(*m)->Error_data));
            }
            let ghost eov = member_views_of(eo@);
            let idj = match &e.id {
                Some(i) => id_to_json(i),
                None => Json::Null,
            };
            let ghost idv = json_view(idj);
            proof {
                match &e.id {
                    Some(i) => {
                        assert(msg_view(*m)->Error_id == Some(id_view(*i)));
                    }
                    None => {
                        assert(msg_view(*m)->Error_id is None);
                    }
                }
                assert(idv == id_or_null(msg_view(*m)->Error_id));
            }
            let mut ms: Vec<(String, Json)> = Vec::new();
            ms.push((jsonrpc_key_string(), Json::Str(version_string())));
            ms.push((id_key_string(), idj));
            ms.push((error_key_string(), Json::Obj(eo)));
            proof {
                lemma_member_views_of_len(ms@);
                lemma_member_views_of_index(ms@, 0);
                lemma_member_views_of_index(ms@, 1);
                lemma_member_views_of_index(ms@, 2);
                assert(member_views_of(ms@) =~= seq![
                    (k_jsonrpc(), JsonV::Str(version_chars())),
                    (k_id(), id_or_null(msg_view(*m)->Error_id)),
                    (
                        k_error(),
                        JsonV::Obj(
                            seq![
                                (k_code(), JsonV::Int(e.code as int)),
                                (k_message(), JsonV::Str(e.message@)),
                            ] + opt_member(k_data(), msg_view(*m)->Error_data),
                        ),
                    ),
                ]);
                assert(json_view(Json::Obj(ms)) == doc_view(msg_view(*m)));
            }
            Json::Obj(ms)
        }
    }
}

// ---------------------------------------------------------------------------
// The round trip at the message level.
// ---------------------------------------------------------------------------

/// One step of a lookup past a mismatched key.
proof fn lemma_lookup_step(ms: Seq<(Seq<char>, JsonV)>, k: Seq<char>)
    requires
        ms.len() > 0,
        ms[0].0 != k,
    ensures
        jv_lookup(ms, k) == jv_lookup(ms.drop_first(), k),
{
}

/// The keys of the wire shapes are pairwise distinct.
proof fn lemma_keys_distinct()
    ensures
        k_jsonrpc() != k_id(),
        k_jsonrpc() != k_method(),
        k_jsonrpc() != k_params(),
        k_jsonrpc() != k_result(),
        k_jsonrpc() != k_error(),
        k_id() != k_method(),
        k_id() != k_params(),
        k_id() != k_result(),
        k_id() != k_error(),
        k_method() != k_params(),
        k_method() != k_result(),
        k_method() != k_error(),
        k_result() != k_error(),
        k_params() != k_result(),
        k_params() != k_error(),
        k_code() != k_message(),
        k_code() != k_data(),
        k_message() != k_data(),
{
    assert(k_jsonrpc().len() == 7 && k_id().len() == 2 && k_method().len() == 6 && k_params().len()
        == 6 && k_result().len() == 6 && k_error().len() == 5 && k_code().len() == 4
        && k_message().len() == 7 && k_data().len() == 4);
    assert(k_method()[0] == 'm' && k_params()[0] == 'p' && k_result()[0] == 'r');
    assert(k_code()[0] == 'c' && k_data()[0] == 'd');
    assert(k_jsonrpc()[0] == 'j' && k_message()[0] == 'm');
}

/// Classification inverts the wire shape of every message.
proof fn lemma_classify_doc_view(m: JSONRPCMessage)
    ensures
        classify_v(doc_view(msg_view(m))) == Ok::<MsgV, Option<JsonV>>(msg_view(m)),
{
    lemma_keys_distinct();
    match m {
        JSONRPCMessage::Request(r) => {
            let idv = id_view(r.id);
            let head = seq![
                (k_jsonrpc(), JsonV::Str(version_chars())),
                (k_id(), idv),
                (k_method(), JsonV::Str(r.method@)),
            ];
            let ms = head + opt_member(k_params(), msg_view(m)->Request_params);
            assert(doc_view(msg_view(m)) == JsonV::Obj(ms));
            assert(ms[0] == (k_jsonrpc(), JsonV::Str(version_chars())));
            assert(ms[1] == (k_id(), idv));
            assert(ms[2] == (k_method(), JsonV::Str(r.method@)));
            assert(jv_lookup(ms, k_jsonrpc()) == Some(JsonV::Str(version_chars())));
            lemma_lookup_step(ms, k_id());
            assert(ms.drop_first()[0] == ms[1]);
            assert(jv_lookup(ms, k_id()) == Some(idv));
            lemma_lookup_step(ms, k_method());
            lemma_lookup_step(ms.drop_first(), k_method());
            assert(ms.drop_first().drop_first()[0] == ms[2]);
            assert(jv_lookup(ms, k_method()) == Some(JsonV::Str(r.method@)));
            lemma_lookup_step(ms, k_params());
            lemma_lookup_step(ms.drop_first(), k_params());
            lemma_lookup_step(ms.drop_first().drop_first(), k_params());
            match r.params {
                Some(p) => {
                    assert(ms.drop_first().drop_first().drop_first() =~= seq![
                        (k_params(), json_view(p)),
                    ]);
                    assert(jv_lookup(ms, k_params()) == Some(json_view(p)));
                }
                None => {
                    assert(ms.drop_first().drop_first().drop_first() =~= Seq::<(
                        Seq<char>,
                        JsonV,
                    )>::empty());
                    assert(jv_lookup(Seq::<(Seq<char>, JsonV)>::empty(), k_params()).is_none());
                    assert(jv_lookup(ms, k_params()).is_none());
                }
            }
            assert(id_ok(idv));
        }
        JSONRPCMessage::Response(r) => {
            let idv = id_view(r.id);
            let ms = seq![
                (k_jsonrpc(), JsonV::Str(version_chars())),
                (k_id(), idv),
                (k_result(), json_view(r.result)),
            ];
            assert(doc_view(msg_view(m)) == JsonV::Obj(ms));
            assert(jv_lookup(ms, k_jsonrpc()) == Some(JsonV::Str(version_chars())));
            lemma_lookup_step(ms, k_id());
            assert(ms.drop_first()[0] == ms[1]);
            assert(jv_lookup(ms, k_id()) == Some(idv));
            lemma_lookup_step(ms, k_method());
            lemma_lookup_step(ms.drop_first(), k_method());
            assert(ms.drop_first().drop_first()[0] == ms[2]);
            lemma_lookup_step(ms.drop_first().drop_first(), k_method());
            assert(ms.drop_first().drop_first().drop_first() =~= Seq::<(Seq<char>, JsonV)>::empty());
            assert(jv_lookup(Seq::<(Seq<char>, JsonV)>::empty(), k_method()).is_none());
            assert(jv_lookup(ms, k_method()).is_none());
            lemma_lookup_step(ms, k_result());
            lemma_lookup_step(ms.drop_first(), k_result());
            assert(jv_lookup(ms, k_result()) == Some(json_view(r.result)));
            assert(id_ok(idv));
        }
        JSONRPCMessage::Error(e) => {
            let idv = match e.id {
                Some(i) => id_view(i),
                None => JsonV::Null,
            };
            let eo = seq![(k_code(), JsonV::Int(e.code as int)), (k_message(), JsonV::Str(e.message@))]
                + opt_member(k_data(), msg_view(m)->Error_data);
            let ms = seq![
                (k_jsonrpc(), JsonV::Str(version_chars())),
                (k_id(), id_or_null(msg_view(m)->Error_id)),
                (k_error(), JsonV::Obj(eo)),
            ];
            assert(idv == id_or_null(msg_view(m)->Error_id));
            assert(doc_view(msg_view(m)) == JsonV::Obj(ms));
            assert(jv_lookup(ms, k_jsonrpc()) == Some(JsonV::Str(version_chars())));
            lemma_lookup_step(ms, k_id());
            assert(ms.drop_first()[0] == ms[1]);
            assert(jv_lookup(ms, k_id()) == Some(idv));
            lemma_lookup_step(ms, k_method());
            lemma_lookup_step(ms.drop_first(), k_method());
            assert(ms.drop_first().drop_first()[0] == ms[2]);
            lemma_lookup_step(ms.drop_first().drop_first(), k_method());
            assert(ms.drop_first().drop_first().drop_first() =~= Seq::<(Seq<char>, JsonV)>::empty());
            assert(jv_lookup(Seq::<(Seq<char>, JsonV)>::empty(), k_method()).is_none());
            assert(jv_lookup(ms, k_method()).is_none());
            lemma_lookup_step(ms, k_result());
            lemma_lookup_step(ms.drop_first(), k_result());
            lemma_lookup_step(ms.drop_first().drop_first(), k_result());
            assert(jv_lookup(Seq::<(Seq<char>, JsonV)>::empty(), k_result()).is_none());
            assert(jv_lookup(ms, k_result()).is_none());
            lemma_lookup_step(ms, k_error());
            lemma_lookup_step(ms.drop_first(), k_error());
            assert(jv_lookup(ms, k_error()) == Some(JsonV::Obj(eo)));
            assert(eo[0] == (k_code(), JsonV::Int(e.code as int)));
            assert(eo[1] == (k_message(), JsonV::Str(e.message@)));
            assert(jv_lookup(eo, k_code()) == Some(JsonV::Int(e.code as int)));
            lemma_lookup_step(eo, k_message());
            assert(eo.drop_first()[0] == eo[1]);
            assert(jv_lookup(eo, k_message()) == Some(JsonV::Str(e.message@)));
            lemma_lookup_step(eo, k_data());
            lemma_lookup_step(eo.drop_first(), k_data());
            match e.data {
                Some(d) => {
                    assert(msg_view(m)->Error_data == Some(json_view(d)));
                    assert(eo.drop_first().drop_first() =~= seq![(k_data(), json_view(d))]);
                    assert(jv_lookup(eo, k_data()) == Some(json_view(d)));
                }
                None => {
                    assert(msg_view(m)->Error_data is None);
                    assert(eo.drop_first().drop_first() =~= Seq::<(Seq<char>, JsonV)>::empty());
                    assert(jv_lookup(Seq::<(Seq<char>, JsonV)>::empty(), k_data()).is_none());
                    assert(jv_lookup(eo, k_data()).is_none());
                }
            }
            match e.id {
                Some(i) => {
                    assert(id_ok(idv));
                    assert(!(idv is Null));
                }
                None => {}
            }
        }
    }
}

/// The wire shape of every message is a well-formed denotation.
proof fn lemma_wf_doc_view(m: JSONRPCMessage)
    ensures
        crate::json::wf_jsonv(doc_view(msg_view(m))),
{
    match m {
        JSONRPCMessage::Request(r) => {
            match r.params {
                Some(p) => {
                    lemma_view_wf(p);
                }
                None => {}
            }
            let ms = doc_view(msg_view(m))->Obj_0;
            assert forall|i: int| 0 <= i < ms.len() implies crate::json::wf_jsonv(
                #[trigger] ms[i].1,
            ) by {}
            lemma_wf_members_pointwise(ms);
        }
        JSONRPCMessage::Response(r) => {
            lemma_view_wf(r.result);
            let ms = doc_view(msg_view(m))->Obj_0;
            assert forall|i: int| 0 <= i < ms.len() implies crate::json::wf_jsonv(
                #[trigger] ms[i].1,
            ) by {}
            lemma_wf_members_pointwise(ms);
        }
        JSONRPCMessage::Error(e) => {
            match e.data {
                Some(d) => {
                    lemma_view_wf(d);
                }
                None => {}
            }
            let eo = seq![(k_code(), JsonV::Int(e.code as int)), (k_message(), JsonV::Str(e.message@))]
                + match msg_view(m)->Error_data {
                Some(d) => seq![(k_data(), d)],
                None => Seq::<(Seq<char>, JsonV)>::empty(),
            };
            assert forall|i: int| 0 <= i < eo.len() implies crate::json::wf_jsonv(
                #[trigger] eo[i].1,
            ) by {}
            lemma_wf_members_pointwise(eo);
            let ms = doc_view(msg_view(m))->Obj_0;
            assert(ms[2].1 == JsonV::Obj(eo));
            assert forall|i: int| 0 <= i < ms.len() implies crate::json::wf_jsonv(
                #[trigger] ms[i].1,
            ) by {}
            lemma_wf_members_pointwise(ms);
        }
    }
}

/// Members whose values are all well-formed are well-formed.
proof fn lemma_wf_members_pointwise(ms: Seq<(Seq<char>, JsonV)>)
    requires
        forall|i: int| 0 <= i < ms.len() ==> crate::json::wf_jsonv(#[trigger] ms[i].1),
    ensures
        crate::json::wf_members_v(ms),
    decreases ms.len(),
{
    if ms.len() > 0 {
        lemma_wf_members_pointwise(ms.drop_first());
    }
}

/// Round trip: parsing the serialization of any message yields a
/// structurally identical message.
pub proof fn lemma_message_round_trip(m: JSONRPCMessage)
    ensures
        spec_parse_message(ser_jsonv(doc_view(msg_view(m)))) == Ok::<MsgV, WireFaultV>(msg_view(m)),
{
    lemma_wf_doc_view(m);
    crate::json::lemma_parse_serialized_v(doc_view(msg_view(m)));
    lemma_classify_doc_view(m);
}

/// Serialize a message to one line of wire text.
pub fn serialize_message(m: &JSONRPCMessage) -> (r: String)
    ensures
        r@ == ser_jsonv(doc_view(msg_view(*m))),
        spec_parse_message(r@) == Ok::<MsgV, WireFaultV>(msg_view(*m)),
{
    let doc = message_to_json(m);
    let text = json_to_text(&doc);
    proof {
        lemma_ser_json_view(doc);
        lemma_message_round_trip(*m);
    }
    text
}

impl RequestId {
    /// A copy of the id.
    pub fn duplicate(&self) -> (r: RequestId)
        ensures
            id_view(r) == id_view(*self),
    {
        match self {
            RequestId::Number(n) => RequestId::Number(*n),
            RequestId::Text(s) => RequestId::Text(s.clone()),
        }
    }
}

/// The denotation of an optional value.
pub open spec fn opt_json_view(p: Option<Json>) -> Option<JsonV> {
    match p {
        Some(j) => Some(json_view(j)),
        None => None,
    }
}

/// Look a member up in an object value, copying it out; `None` on anything
/// that is not an object carrying the key.
pub fn json_member(j: &Json, key: &str) -> (r: Option<Json>)
    ensures
        match r {
            Some(v) => j matches Json::Obj(ms) && jv_lookup(member_views_of(ms@), key@) == Some(
                json_view(v),
            ),
            None => j matches Json::Obj(ms) ==> jv_lookup(member_views_of(ms@), key@).is_none(),
        },
{
    match j {
        Json::Obj(ms) => {
            let kc = str_to_chars(key);
            match obj_get(ms, &kc) {
                Some(v) => Some(v.duplicate()),
                None => None,
            }
        }
        _ => None,
    }
}

} // verus!
