//! The server engine: the dispatch table, the classification of each
//! decoded request into exactly one reply, and the retry policy that
//! decides when sustained transport failure becomes fatal.
//!
//! The blocking receive loop itself is run by the hosting application,
//! which feeds each receive outcome to [`Server::process_message`].

use vstd::prelude::*;
use crate::error::MCPError;
use crate::json::Json;
use crate::json::JsonV;
use crate::json::json_view;
use crate::json::member_views_of;
use crate::json::lemma_member_views_of_index;
use crate::json::lemma_member_views_of_len;
use crate::codec::JSONRPCMessage;
use crate::codec::JSONRPCRequest;
use crate::codec::JSONRPCResponse;
use crate::codec::JSONRPCError;
use crate::codec::RequestId;
use crate::codec::MsgV;
use crate::codec::WireFaultV;
use crate::codec::ParseFault;
use crate::codec::id_view;
use crate::codec::msg_view;
use crate::codec::parse_message;
use crate::codec::serialize_message;
use crate::codec::spec_parse_message;
use crate::codec::jv_lookup;
use crate::codec::json_member;
use crate::codec::opt_json_view;
use crate::codec::CODE_PARSE_ERROR;
use crate::codec::CODE_INVALID_REQUEST;
use crate::codec::CODE_METHOD_NOT_FOUND;
use crate::codec::CODE_INVALID_PARAMS;
use crate::codec::CODE_INTERNAL_ERROR;
use crate::codec::CODE_APPLICATION_ERROR;
use crate::tools::Tool;
use crate::tools::ToolsProvider;
use crate::tools::tool_docs;
use crate::tools::tools_to_json;
use crate::prompt::PromptProvider;
use crate::resource::ResourceProvider;
use crate::transport::Transport;
use crate::text::str_eq;
use crate::text::str_to_chars;

verus! {

/// Registers a tool into a configuration; implemented by generated code.
pub trait ToolRegistration {
    /// Add this tool's descriptor to the listing.
    fn register_tool(tools: &mut Vec<Tool>);
}

/// The protocol version the server reports.
pub open spec fn protocol_version_chars() -> Seq<char> {
    "2024-11-05"@
}

/// Server configuration: its name, its version, and the tools it lists.
#[derive(Debug, PartialEq, Eq)]
pub struct ServerConfig {
    pub name: String,
    pub version: String,
    pub tools: Vec<Tool>,
}

impl ServerConfig {
    /// Create a new server configuration.
    pub fn new() -> (c: Self)
        ensures
            c.name@ == "MCP Server"@,
            c.version@ == "1.0.0"@,
            c.tools@.len() == 0,
    {
        ServerConfig {
            name: "MCP Server".to_owned(),
            version: "1.0.0".to_owned(),
            tools: Vec::new(),
        }
    }

    /// Set the server name.
    pub fn with_name(self, name: &str) -> (c: Self)
        ensures
            c.name@ == name@,
            c.version == self.version,
            c.tools == self.tools,
    {
        ServerConfig { name: name.to_owned(), ..self }
    }

    /// Set the server version.
    pub fn with_version(self, version: &str) -> (c: Self)
        ensures
            c.version@ == version@,
            c.name == self.name,
            c.tools == self.tools,
    {
        ServerConfig { version: version.to_owned(), ..self }
    }

    /// Add a tool to the server.
    pub fn with_tool(self, tool: Tool) -> (c: Self)
        ensures
            c.tools@ == self.tools@.push(tool),
            c.name == self.name,
            c.version == self.version,
    {
        let mut c = self;
        c.tools.push(tool);
        c
    }
}

impl Default for ServerConfig {
    /// The default configuration.
    fn default() -> (c: Self)
        ensures
            c.name@ == "MCP Server"@,
            c.version@ == "1.0.0"@,
            c.tools@.len() == 0,
    {
        ServerConfig::new()
    }
}

// ---------------------------------------------------------------------------
// Method names.
// ---------------------------------------------------------------------------

pub open spec fn m_initialize() -> Seq<char> {
    "initialize"@
}

pub open spec fn m_shutdown() -> Seq<char> {
    "shutdown"@
}

pub open spec fn m_tool_call() -> Seq<char> {
    "tool_call"@
}

pub open spec fn m_tools_call() -> Seq<char> {
    "tools/call"@
}

pub open spec fn m_get_tools() -> Seq<char> {
    "get_tools"@
}

pub open spec fn m_tools_list() -> Seq<char> {
    "tools/list"@
}

pub open spec fn m_get_prompts() -> Seq<char> {
    "get_prompts"@
}

pub open spec fn m_prompts_list() -> Seq<char> {
    "prompts/list"@
}

pub open spec fn m_get_prompt_messages() -> Seq<char> {
    "get_prompt_messages"@
}

pub open spec fn m_get_resources() -> Seq<char> {
    "get_resources"@
}

pub open spec fn m_resources_list() -> Seq<char> {
    "resources/list"@
}

pub open spec fn m_get_resource() -> Seq<char> {
    "get_resource"@
}

pub open spec fn m_resources_get() -> Seq<char> {
    "resources/get"@
}

/// The methods the server recognizes.
pub open spec fn known_method(m: Seq<char>) -> bool {
    ||| m == m_initialize()
    ||| m == m_shutdown()
    ||| m == m_tool_call()
    ||| m == m_tools_call()
    ||| m == m_get_tools()
    ||| m == m_tools_list()
    ||| m == m_get_prompts()
    ||| m == m_prompts_list()
    ||| m == m_get_prompt_messages()
    ||| m == m_get_resources()
    ||| m == m_resources_list()
    ||| m == m_get_resource()
    ||| m == m_resources_get()
}

/// The reply to a request with an unrecognized method.
pub open spec fn method_not_found_message(m: Seq<char>) -> Seq<char> {
    "Method not found: "@ + m
}

/// The result carried by the reply to `initialize`.
pub open spec fn init_result_view(c: ServerConfig) -> JsonV {
    JsonV::Obj(
        seq![
            ("protocol_version"@, JsonV::Str(protocol_version_chars())),
            (
                "server_info"@,
                JsonV::Obj(
                    seq![("name"@, JsonV::Str(c.name@)), ("version"@, JsonV::Str(c.version@))],
                ),
            ),
            ("tools"@, JsonV::Arr(tool_docs(c.tools@))),
            (
                "capabilities"@,
                JsonV::Obj(seq![("tools"@, JsonV::Obj(seq![("list_changed"@, JsonV::Bool(false))]))]),
            ),
        ],
    )
}

/// The id a reply answers, if the reply is a reply at all.
pub open spec fn reply_id(w: MsgV) -> Option<JsonV> {
    match w {
        MsgV::Request { .. } => None,
        MsgV::Response { id, .. } => Some(id),
        MsgV::Error { id, .. } => id,
    }
}

// ---------------------------------------------------------------------------
// Reply construction.
// ---------------------------------------------------------------------------

/// The reply to `initialize`: the server's identity and its tool listing.
fn build_init_result(config: &ServerConfig) -> (r: Json)
    ensures
        json_view(r) == init_result_view(*config),
{
    let mut info: Vec<(String, Json)> = Vec::new();
    info.push(("name".to_owned(), Json::Str(config.name.clone())));
    info.push(("version".to_owned(), Json::Str(config.version.clone())));
    proof {
        lemma_member_views_of_len(info@);
        lemma_member_views_of_index(info@, 0);
        lemma_member_views_of_index(info@, 1);
        assert(member_views_of(info@) =~= seq![
            ("name"@, JsonV::Str(config.name@)),
            ("version"@, JsonV::Str(config.version@)),
        ]);
    }
    let mut lc: Vec<(String, Json)> = Vec::new();
    lc.push(("list_changed".to_owned(), Json::Bool(false)));
    proof {
        lemma_member_views_of_len(lc@);
        lemma_member_views_of_index(lc@, 0);
        assert(member_views_of(lc@) =~= seq![("list_changed"@, JsonV::Bool(false))]);
    }
    let mut caps: Vec<(String, Json)> = Vec::new();
    caps.push(("tools".to_owned(), Json::Obj(lc)));
    proof {
        lemma_member_views_of_len(caps@);
        lemma_member_views_of_index(caps@, 0);
        assert(member_views_of(caps@) =~= seq![
            ("tools"@, JsonV::Obj(seq![("list_changed"@, JsonV::Bool(false))])),
        ]);
    }
    let listing = tools_to_json(&config.tools);
    let mut ms: Vec<(String, Json)> = Vec::new();
    ms.push(("protocol_version".to_owned(), Json::Str("2024-11-05".to_owned())));
    ms.push(("server_info".to_owned(), Json::Obj(info)));
    ms.push(("tools".to_owned(), listing));
    ms.push(("capabilities".to_owned(), Json::Obj(caps)));
    proof {
        lemma_member_views_of_len(ms@);
        lemma_member_views_of_index(ms@, 0);
        lemma_member_views_of_index(ms@, 1);
        lemma_member_views_of_index(ms@, 2);
        lemma_member_views_of_index(ms@, 3);
        assert(member_views_of(ms@) =~= init_result_view(*config)->Obj_0);
    }
    Json::Obj(ms)
}

/// A reply whose result is an object with a single member.
fn build_single_member(key: &str, value: Json) -> (r: Json)
    ensures
        json_view(r) == JsonV::Obj(seq![(key@, json_view(value))]),
{
    let ghost vv = json_view(value);
    let mut ms: Vec<(String, Json)> = Vec::new();
    ms.push((key.to_owned(), value));
    proof {
        lemma_member_views_of_len(ms@);
        lemma_member_views_of_index(ms@, 0);
        assert(member_views_of(ms@) =~= seq![(key@, vv)]);
    }
    Json::Obj(ms)
}

/// An empty object.
fn build_empty_object() -> (r: Json)
    ensures
        json_view(r) == JsonV::Obj(Seq::empty()),
{
    let ms: Vec<(String, Json)> = Vec::new();
    proof {
        assert(member_views_of(ms@) =~= Seq::<(Seq<char>, JsonV)>::empty());
    }
    Json::Obj(ms)
}

/// The message a tool call outcome is answered with: the result wrapped as
/// `{"result": ...}` on success, an application error (`-32000`) carrying
/// the error's rendered message otherwise.
pub fn reply_tool_outcome(id: RequestId, outcome: Result<Json, MCPError>) -> (reply: JSONRPCMessage)
    ensures
        match outcome {
            Ok(result) => msg_view(reply) == (MsgV::Response {
                id: id_view(id),
                result: JsonV::Obj(seq![("result"@, json_view(result))]),
            }),
            Err(e) => msg_view(reply) == (MsgV::Error {
                id: Some(id_view(id)),
                code: CODE_APPLICATION_ERROR as int,
                message: "Tool execution failed: "@ + e.spec_message(),
                data: None,
            }),
        },
{
    match outcome {
        Ok(result) => {
            let body = build_single_member("result", result);
            JSONRPCMessage::Response(JSONRPCResponse { id, result: body })
        }
        Err(e) => {
            let rendered = e.message();
            let text = crate::text::str_concat("Tool execution failed: ", rendered.as_str());
            JSONRPCMessage::Error(
                JSONRPCError { id: Some(id), code: CODE_APPLICATION_ERROR, message: text, data: None },
            )
        }
    }
}

/// An error reply with the given code and message.
fn reply_error(id: &RequestId, code: i64, message: String) -> (reply: JSONRPCMessage)
    ensures
        msg_view(reply) == (MsgV::Error {
            id: Some(id_view(*id)),
            code: code as int,
            message: message@,
            data: None,
        }),
{
    JSONRPCMessage::Error(
        JSONRPCError { id: Some(id.duplicate()), code, message, data: None },
    )
}

/// The tool or prompt name carried by a request's `params`.
pub open spec fn spec_string_param(params: Option<JsonV>, key: Seq<char>) -> Option<Seq<char>> {
    match params {
        Some(JsonV::Obj(ms)) => match jv_lookup(ms, key) {
            Some(JsonV::Str(sv)) => Some(sv),
            _ => None,
        },
        _ => None,
    }
}

/// The tool name a call request addresses.
pub open spec fn spec_call_name(params: Option<JsonV>) -> Option<Seq<char>> {
    spec_string_param(params, "name"@)
}

/// The parameters handed to the tool; absent parameters are null.
pub open spec fn spec_call_args(params: Option<JsonV>) -> JsonV {
    match params {
        Some(JsonV::Obj(ms)) => match jv_lookup(ms, "parameters"@) {
            Some(v) => v,
            None => JsonV::Null,
        },
        _ => JsonV::Null,
    }
}

/// Extract the tool name and its parameters from a request's `params`:
/// `{"name": ..., "parameters": ...}`.
fn extract_call_params(params: &Option<Json>) -> (r: Option<(String, Json)>)
    ensures
        match r {
            Some(pair) => spec_call_name(opt_json_view(*params)) == Some(pair.0@) && json_view(
                pair.1,
            ) == spec_call_args(opt_json_view(*params)),
            None => spec_call_name(opt_json_view(*params)).is_none(),
        },
{
    match params {
        Some(p) => match json_member(p, "name") {
            Some(Json::Str(name)) => {
                let args = match json_member(p, "parameters") {
                    Some(v) => v,
                    None => Json::Null,
                };
                Some((name, args))
            }
            _ => None,
        },
        None => None,
    }
}

/// Extract a single string field from a request's `params`.
fn extract_string_param(params: &Option<Json>, key: &str) -> (r: Option<String>)
    ensures
        match r {
            Some(sv) => spec_string_param(opt_json_view(*params), key@) == Some(sv@),
            None => spec_string_param(opt_json_view(*params), key@).is_none(),
        },
{
    match params {
        Some(p) => match json_member(p, key) {
            Some(Json::Str(sv)) => Some(sv),
            _ => None,
        },
        None => None,
    }
}

// ---------------------------------------------------------------------------
// Dispatch.
// ---------------------------------------------------------------------------

/// Whether a name stands in the dispatch table.
pub open spec fn name_registered(handled: Seq<String>, name: Seq<char>) -> bool {
    exists|i: int| 0 <= i < handled.len() && handled[i]@ == name
}

/// Whether a tool of the given name is configured.
pub open spec fn tool_configured(tools: Seq<Tool>, name: Seq<char>) -> bool {
    exists|i: int| 0 <= i < tools.len() && tools[i].name@ == name
}

/// Dispatch one decoded request: produce exactly one reply carrying the
/// request's id, and say whether the engine must stop (after `shutdown`).
pub fn dispatch_request<P: ToolsProvider, Q: PromptProvider, R: ResourceProvider>(
    config: &ServerConfig,
    handled: &Vec<String>,
    req: &JSONRPCRequest,
    tools: Option<&P>,
    prompts: Option<&Q>,
    resources: Option<&R>,
) -> (out: (JSONRPCMessage, bool))
    ensures
        reply_id(msg_view(out.0)) == Some(id_view(req.id)),
        !(out.0 is Request),
        out.1 <==> req.method@ == m_shutdown(),
        !known_method(req.method@) ==> msg_view(out.0) == (MsgV::Error {
            id: Some(id_view(req.id)),
            code: CODE_METHOD_NOT_FOUND as int,
            message: method_not_found_message(req.method@),
            data: None,
        }),
        req.method@ == m_initialize() ==> msg_view(out.0) == (MsgV::Response {
            id: id_view(req.id),
            result: init_result_view(*config),
        }),
        req.method@ == m_shutdown() ==> msg_view(out.0) == (MsgV::Response {
            id: id_view(req.id),
            result: JsonV::Obj(Seq::empty()),
        }),
{
    proof {
        reveal_strlit("initialize");
        reveal_strlit("shutdown");
        assert(m_initialize().len() == 10);
        assert(m_shutdown().len() == 8);
    }
    let method = &req.method;
    if str_eq(method.as_str(), "initialize") {
        let result = build_init_result(config);
        (JSONRPCMessage::Response(JSONRPCResponse { id: req.id.duplicate(), result }), false)
    } else if str_eq(method.as_str(), "shutdown") {
        let result = build_empty_object();
        (JSONRPCMessage::Response(JSONRPCResponse { id: req.id.duplicate(), result }), true)
    } else if str_eq(method.as_str(), "tool_call") || str_eq(method.as_str(), "tools/call") {
        (dispatch_tool_call(handled, req, tools), false)
    } else if str_eq(method.as_str(), "get_tools") || str_eq(method.as_str(), "tools/list") {
        match tools {
            Some(provider) => {
                let listing = tools_to_json(&provider.get_tools());
                let body = build_single_member("tools", listing);
                (JSONRPCMessage::Response(JSONRPCResponse { id: req.id.duplicate(), result: body }), false)
            }
            None => (
                reply_error(
                    &req.id,
                    CODE_INTERNAL_ERROR,
                    "No tools provider available".to_owned(),
                ),
                false,
            ),
        }
    } else if str_eq(method.as_str(), "get_prompts") || str_eq(method.as_str(), "prompts/list") {
        match prompts {
            Some(provider) => {
                let listing = Json::Arr(provider.get_prompts());
                let body = build_single_member("prompts", listing);
                (JSONRPCMessage::Response(JSONRPCResponse { id: req.id.duplicate(), result: body }), false)
            }
            None => (
                reply_error(
                    &req.id,
                    CODE_INTERNAL_ERROR,
                    "No prompt provider available".to_owned(),
                ),
                false,
            ),
        }
    } else if str_eq(method.as_str(), "get_prompt_messages") {
        match prompts {
            Some(provider) => match extract_string_param(&req.params, "name") {
                Some(name) => match provider.get_prompt_messages(name.as_str()) {
                    Ok(messages) => {
                        let body = build_single_member("messages", Json::Arr(messages));
                        (
                            JSONRPCMessage::Response(
                                JSONRPCResponse { id: req.id.duplicate(), result: body },
                            ),
                            false,
                        )
                    }
                    Err(e) => {
                        let rendered = e.message();
                        let text = crate::text::str_concat(
                            "Prompt provider error: ",
                            rendered.as_str(),
                        );
                        (reply_error(&req.id, CODE_APPLICATION_ERROR, text), false)
                    }
                },
                None => (
                    reply_error(
                        &req.id,
                        CODE_INVALID_PARAMS,
                        "Invalid params: missing prompt name".to_owned(),
                    ),
                    false,
                ),
            },
            None => (
                reply_error(
                    &req.id,
                    CODE_INTERNAL_ERROR,
                    "No prompt provider available".to_owned(),
                ),
                false,
            ),
        }
    } else if str_eq(method.as_str(), "get_resources") || str_eq(method.as_str(), "resources/list") {
        match resources {
            Some(provider) => {
                let listing = Json::Arr(provider.get_resources());
                let body = build_single_member("resources", listing);
                (JSONRPCMessage::Response(JSONRPCResponse { id: req.id.duplicate(), result: body }), false)
            }
            None => (
                reply_error(
                    &req.id,
                    CODE_INTERNAL_ERROR,
                    "No resource provider available".to_owned(),
                ),
                false,
            ),
        }
    } else if str_eq(method.as_str(), "get_resource") || str_eq(method.as_str(), "resources/get") {
        match resources {
            Some(provider) => match extract_string_param(&req.params, "uri") {
                Some(uri) => match provider.get_resource(uri.as_str()) {
                    Ok(contents) => {
                        let body = build_single_member("resource", contents);
                        (
                            JSONRPCMessage::Response(
                                JSONRPCResponse { id: req.id.duplicate(), result: body },
                            ),
                            false,
                        )
                    }
                    Err(e) => {
                        let rendered = e.message();
                        let text = crate::text::str_concat(
                            "Resource provider error: ",
                            rendered.as_str(),
                        );
                        (reply_error(&req.id, CODE_APPLICATION_ERROR, text), false)
                    }
                },
                None => (
                    reply_error(
                        &req.id,
                        CODE_INVALID_PARAMS,
                        "Invalid params: missing resource URI".to_owned(),
                    ),
                    false,
                ),
            },
            None => (
                reply_error(
                    &req.id,
                    CODE_INTERNAL_ERROR,
                    "No resource provider available".to_owned(),
                ),
                false,
            ),
        }
    } else {
        let text = crate::text::str_concat("Method not found: ", method.as_str());
        (reply_error(&req.id, CODE_METHOD_NOT_FOUND, text), false)
    }
}

/// The tool-call arm of dispatch: extract the tool name and parameters,
/// check the dispatch table, and answer with the handler's outcome.
fn dispatch_tool_call<P: ToolsProvider>(
    handled: &Vec<String>,
    req: &JSONRPCRequest,
    tools: Option<&P>,
) -> (reply: JSONRPCMessage)
    ensures
        reply_id(msg_view(reply)) == Some(id_view(req.id)),
        !(reply is Request),
        spec_call_name(opt_json_view(req.params)).is_none() ==> msg_view(reply) == (MsgV::Error {
            id: Some(id_view(req.id)),
            code: CODE_INVALID_PARAMS as int,
            message: "Invalid params: missing tool name"@,
            data: None,
        }),
        (spec_call_name(opt_json_view(req.params)) is Some && tools is None) ==> msg_view(reply)
            == (MsgV::Error {
            id: Some(id_view(req.id)),
            code: CODE_INTERNAL_ERROR as int,
            message: "No tools provider available"@,
            data: None,
        }),
        spec_call_name(opt_json_view(req.params)) matches Some(name) ==> ((tools is Some
            && !name_registered(handled@, name)) ==> msg_view(reply) == (MsgV::Error {
            id: Some(id_view(req.id)),
            code: CODE_INTERNAL_ERROR as int,
            message: "No handler registered for tool '"@ + name + "'"@,
            data: None,
        })),
{
    match extract_call_params(&req.params) {
        None => reply_error(
            &req.id,
            CODE_INVALID_PARAMS,
            "Invalid params: missing tool name".to_owned(),
        ),
        Some((name, args)) => match tools {
            None => reply_error(
                &req.id,
                CODE_INTERNAL_ERROR,
                "No tools provider available".to_owned(),
            ),
            Some(provider) => {
                let mut registered = false;
                let n = handled.len();
                let mut i: usize = 0;
                while i < n
                    invariant
                        n == handled.len(),
                        i <= n,
                        registered <==> exists|k: int|
                            0 <= k < i && (#[trigger] handled@[k])@ == name@,
                    decreases n - i,
                {
                    if str_eq(handled[i].as_str(), name.as_str()) {
                        registered = true;
                    }
                    i = i + 1;
                }
                if !registered {
                    let text = crate::text::str_concat3(
                        "No handler registered for tool '",
                        name.as_str(),
                        "'",
                    );
                    reply_error(&req.id, CODE_INTERNAL_ERROR, text)
                } else {
                    let outcome = provider.execute_tool(name.as_str(), &args);
                    reply_tool_outcome(req.id.duplicate(), outcome)
                }
            }
        },
    }
}

// ---------------------------------------------------------------------------
// The retry policy.
// ---------------------------------------------------------------------------

/// The wording by which a transport reports a peer-initiated reset.
pub open spec fn reset_marker() -> Seq<char> {
    "Connection reset"@
}

/// Whether a transport failure message indicates a peer-initiated reset.
pub open spec fn is_reset_indication(msg: Seq<char>) -> bool {
    exists|i: int|
        0 <= i && i + reset_marker().len() <= msg.len() && #[trigger] msg.subrange(
            i,
            i + reset_marker().len(),
        ) == reset_marker()
}

/// Whether `msg` contains the reset marker.
fn contains_reset(msg: &String) -> (r: bool)
    ensures
        r == is_reset_indication(msg@),
{
    let hay = str_to_chars(msg.as_str());
    let needle = str_to_chars("Connection reset");
    let n = hay.len();
    let m = needle.len();
    if m > n {
        proof {
            assert(forall|i: int| 0 <= i && #[trigger] (i + m) <= n ==> false);
        }
        return false;
    }
    let mut i: usize = 0;
    while i <= n - m
        invariant
            m <= n,
            n == hay@.len(),
            m == needle@.len(),
            needle@ == reset_marker(),
            hay@ == msg@,
            i <= n - m + 1,
            forall|k: int| 0 <= k < i ==> #[trigger] hay@.subrange(k, k + m as int)
                != reset_marker(),
        decreases n - m + 1 - i,
    {
        let mut j: usize = 0;
        let mut hit = true;
        while j < m
            invariant
                m <= n,
                n == hay@.len(),
                m == needle@.len(),
                i + m <= n,
                j <= m,
                hit <==> (forall|k: int| 0 <= k < j ==> hay@[i + k] == #[trigger] needle@[k]),
            decreases m - j,
        {
            if hay[i + j] != needle[j] {
                hit = false;
            }
            j = j + 1;
        }
        if hit {
            proof {
                assert(hay@.subrange(i as int, i + m as int) =~= needle@);
                assert(msg@.subrange(i as int, i + m as int) == reset_marker());
            }
            return true;
        }
        proof {
            assert(hay@.subrange(i as int, i + m as int) != reset_marker()) by {
                assert(exists|k: int| 0 <= k < m && hay@[i + k] != needle@[k]);
                let k0 = choose|k: int| 0 <= k < m && hay@[i + k] != needle@[k];
                assert(hay@.subrange(i as int, i + m as int)[k0] == hay@[i + k0]);
            }
        }
        i = i + 1;
    }
    proof {
        assert forall|k: int| 0 <= k && k + m <= n implies #[trigger] hay@.subrange(
            k,
            k + m as int,
        ) != reset_marker() by {}
    }
    false
}

/// What the run loop must do after one receive outcome.
#[derive(Debug, PartialEq, Eq)]
pub enum ServerStep {
    /// Go on with the next message.
    Continue,
    /// Sleep briefly, then go on.
    Pause,
    /// The peer asked for shutdown; stop cleanly.
    Stop,
    /// Sustained failure; stop and report the error.
    Fatal(MCPError),
}

/// The failure-counting state of the run loop.
#[derive(Debug, Clone, Copy, PartialEq, Eq, Structural)]
pub struct RetryPolicy {
    pub consecutive_errors: u32,
    pub max_errors: u32,
}

/// How one receive failure moves the policy: connection-state errors are
/// transient and do not count; a transport error that reports a peer reset
/// resets the counter; anything else counts toward the fatal threshold.
pub open spec fn spec_note_error(p: RetryPolicy, e: MCPError) -> (RetryPolicy, bool) {
    match e {
        MCPError::NotConnected => (p, false),
        MCPError::AlreadyConnected => (p, false),
        MCPError::Transport(msg) => if is_reset_indication(msg@) {
            (RetryPolicy { consecutive_errors: 0, ..p }, false)
        } else {
            let n = if p.consecutive_errors < p.max_errors {
                (p.consecutive_errors + 1) as u32
            } else {
                p.consecutive_errors
            };
            (RetryPolicy { consecutive_errors: n, ..p }, n >= p.max_errors)
        },
        _ => {
            let n = if p.consecutive_errors < p.max_errors {
                (p.consecutive_errors + 1) as u32
            } else {
                p.consecutive_errors
            };
            (RetryPolicy { consecutive_errors: n, ..p }, n >= p.max_errors)
        },
    }
}

impl RetryPolicy {
    /// The default policy: five consecutive failures are fatal.
    pub fn new() -> (p: Self)
        ensures
            p == (RetryPolicy { consecutive_errors: 0u32, max_errors: 5u32 }),
    {
        RetryPolicy { consecutive_errors: 0, max_errors: 5 }
    }

    /// A policy with a chosen threshold.
    pub fn with_max_errors(max_errors: u32) -> (p: Self)
        ensures
            p == (RetryPolicy { consecutive_errors: 0u32, max_errors }),
    {
        RetryPolicy { consecutive_errors: 0, max_errors }
    }

    /// A successful exchange resets the counter.
    pub fn note_success(&mut self)
        ensures
            *final(self) == (RetryPolicy { consecutive_errors: 0u32, ..*old(self) }),
    {
        self.consecutive_errors = 0;
    }

    /// Record one failure; the result says whether the loop must abort.
    pub fn note_error(&mut self, e: &MCPError) -> (abort: bool)
        ensures
            (*final(self), abort) == spec_note_error(*old(self), *e),
    {
        match e {
            MCPError::NotConnected => false,
            MCPError::AlreadyConnected => false,
            MCPError::Transport(msg) => {
                if contains_reset(msg) {
                    self.consecutive_errors = 0;
                    false
                } else {
                    if self.consecutive_errors < self.max_errors {
                        self.consecutive_errors = self.consecutive_errors + 1;
                    }
                    self.consecutive_errors >= self.max_errors
                }
            }
            _ => {
                if self.consecutive_errors < self.max_errors {
                    self.consecutive_errors = self.consecutive_errors + 1;
                }
                self.consecutive_errors >= self.max_errors
            }
        }
    }
}

/// Reaching the threshold takes exactly `max_errors` consecutive counting
/// failures: with the default threshold, five in a row abort, while four
/// followed by a success leave the counter at zero and the loop running.
pub proof fn lemma_retry_threshold(e: MCPError)
    requires
        !(e is NotConnected),
        !(e is AlreadyConnected),
        e matches MCPError::Transport(msg) ==> !is_reset_indication(msg@),
    ensures
        ({
            let p0 = RetryPolicy { consecutive_errors: 0u32, max_errors: 5u32 };
            let (p1, a1) = spec_note_error(p0, e);
            let (p2, a2) = spec_note_error(p1, e);
            let (p3, a3) = spec_note_error(p2, e);
            let (p4, a4) = spec_note_error(p3, e);
            let (p5, a5) = spec_note_error(p4, e);
            &&& !a1 && !a2 && !a3 && !a4
            &&& a5
            &&& (RetryPolicy { consecutive_errors: 0u32, ..p4 }).consecutive_errors == 0
        }),
{
}

/// A transient error never advances the counter, and a reset indication
/// sends it back to zero.
pub proof fn lemma_retry_transient(p: RetryPolicy, e: MCPError)
    ensures
        e is NotConnected || e is AlreadyConnected ==> spec_note_error(p, e) == (p, false),
        (e matches MCPError::Transport(msg) && is_reset_indication(msg@)) ==> spec_note_error(p, e)
            == (RetryPolicy { consecutive_errors: 0u32, ..p }, false),
{
}

// ---------------------------------------------------------------------------
// The server.
// ---------------------------------------------------------------------------

/// The reply a line of input earns, by what the line denotes.
pub open spec fn expected_step(line: Seq<char>) -> ServerStep {
    match spec_parse_message(line) {
        Ok(MsgV::Request { id, method, params }) => if method == m_shutdown() {
            ServerStep::Stop
        } else {
            ServerStep::Continue
        },
        _ => ServerStep::Continue,
    }
}

/// The high-level server: a configuration, the dispatch table, the
/// transport it serves, and the run loop's failure-counting state.
pub struct Server<T: Transport> {
    pub config: ServerConfig,
    pub handled: Vec<String>,
    pub transport: Option<T>,
    pub policy: RetryPolicy,
}

impl<T: Transport> Server<T> {
    /// Create a new server with the given configuration.
    pub fn new(config: ServerConfig) -> (s: Self)
        ensures
            s.config == config,
            s.handled@.len() == 0,
            s.transport is None,
            s.policy == (RetryPolicy { consecutive_errors: 0u32, max_errors: 5u32 }),
    {
        Server { config, handled: Vec::new(), transport: None, policy: RetryPolicy::new() }
    }

    /// Register a tool handler; the tool must be configured.  Registering
    /// a name again changes nothing observable: dispatch goes by
    /// membership.
    pub fn register_tool_handler(&mut self, tool_name: &str) -> (r: Result<(), MCPError>)
        ensures
            r is Ok <==> tool_configured(old(self).config.tools@, tool_name@),
            r is Ok ==> final(self).handled@.len() == old(self).handled@.len() + 1
                && final(self).handled@.drop_last() == old(self).handled@
                && final(self).handled@.last()@ == tool_name@,
            r is Err ==> *final(self) == *old(self),
            final(self).config == old(self).config,
            final(self).transport == old(self).transport,
            final(self).policy == old(self).policy,
    {
        let n = self.config.tools.len();
        let mut found = false;
        let mut i: usize = 0;
        while i < n
            invariant
                n == self.config.tools.len(),
                i <= n,
                found <==> exists|k: int|
                    0 <= k < i && (#[trigger] self.config.tools@[k]).name@ == tool_name@,
            decreases n - i,
        {
            if str_eq(self.config.tools[i].name.as_str(), tool_name) {
                found = true;
            }
            i = i + 1;
        }
        if !found {
            let text = crate::text::str_concat3(
                "Tool '",
                tool_name,
                "' not found in server configuration",
            );
            return Err(MCPError::Protocol(text));
        }
        self.handled.push(tool_name.to_owned());
        Ok(())
    }

    /// Append a listing to the configured tools, in order.
    pub fn add_tools(&mut self, tools: Vec<Tool>)
        ensures
            final(self).config.tools@ == old(self).config.tools@ + tools@,
            final(self).config.name == old(self).config.name,
            final(self).config.version == old(self).config.version,
            final(self).handled == old(self).handled,
            final(self).transport == old(self).transport,
            final(self).policy == old(self).policy,
    {
        let mut tools = tools;
        self.config.tools.append(&mut tools);
    }

    /// Register the tools of a provider: whatever listing it returns is
    /// appended, exactly and in order, to the configuration's listing.
    pub fn register_tools_provider<P: ToolsProvider>(&mut self, provider: &P) -> (r: Result<
        (),
        MCPError,
    >)
        ensures
            r is Ok,
            old(self).config.tools@.is_prefix_of(final(self).config.tools@),
            final(self).config.name == old(self).config.name,
            final(self).config.version == old(self).config.version,
            final(self).handled == old(self).handled,
            final(self).transport == old(self).transport,
            final(self).policy == old(self).policy,
    {
        let tools = provider.get_tools();
        self.add_tools(tools);
        Ok(())
    }

    /// Start the given transport and take ownership of it.  A server
    /// already holding a transport refuses a second one.  The message
    /// loop is then driven by calls to `process_message`.
    pub fn start(&mut self, transport: T) -> (r: Result<(), MCPError>)
        ensures
            old(self).transport is Some ==> r == Err::<(), MCPError>(MCPError::AlreadyConnected)
                && *final(self) == *old(self),
            r is Ok ==> final(self).transport is Some,
            r is Err ==> final(self).transport == old(self).transport,
            final(self).config == old(self).config,
            final(self).handled == old(self).handled,
            final(self).policy == old(self).policy,
    {
        if self.transport.is_some() {
            return Err(MCPError::AlreadyConnected);
        }
        let mut transport = transport;
        match transport.start() {
            Ok(()) => {
                self.transport = Some(transport);
                Ok(())
            }
            Err(e) => Err(e),
        }
    }

    /// One iteration of the message loop: receive one message from the
    /// transport, dispatch it, send the one reply it earns, and apply the
    /// retry policy to any failure.  The hosting loop repeats this until
    /// it yields `Stop` or `Fatal`, pausing briefly on `Pause`.  A
    /// shutdown request is terminal even when its acknowledgement cannot
    /// be delivered.
    pub fn process_message<P: ToolsProvider, Q: PromptProvider, R: ResourceProvider>(
        &mut self,
        tools: Option<&P>,
        prompts: Option<&Q>,
        resources: Option<&R>,
    ) -> (step: ServerStep)
        ensures
            final(self).config == old(self).config,
            final(self).handled == old(self).handled,
            final(self).policy.max_errors == old(self).policy.max_errors,
            old(self).transport is None ==> (step matches ServerStep::Fatal(
                MCPError::Protocol(msg),
            ) && msg@ == "Transport not initialized"@) && *final(self) == *old(self),
            step matches ServerStep::Fatal(_) ==> old(self).transport is None
                || final(self).policy.consecutive_errors >= final(self).policy.max_errors,
    {
        let incoming = match &mut self.transport {
            Some(t) => t.receive_json(),
            None => {
                return ServerStep::Fatal(MCPError::Protocol("Transport not initialized".to_owned()));
            }
        };
        match incoming {
            Ok(line) => {
                let (reply, step) = self.answer_line(line.as_str(), tools, prompts, resources);
                match reply {
                    Some(text) => {
                        let sent = match &mut self.transport {
                            Some(t) => t.send_json(text.as_str()),
                            None => Err(MCPError::NotConnected),
                        };
                        match sent {
                            Ok(()) => step,
                            Err(e) => match step {
                                ServerStep::Stop => ServerStep::Stop,
                                _ => {
                                    let abort = self.policy.note_error(&e);
                                    if abort {
                                        ServerStep::Fatal(e)
                                    } else {
                                        ServerStep::Pause
                                    }
                                }
                            },
                        }
                    }
                    None => step,
                }
            }
            Err(e) => {
                let abort = self.policy.note_error(&e);
                if abort {
                    ServerStep::Fatal(e)
                } else {
                    ServerStep::Pause
                }
            }
        }
    }

    /// Decide the reply one line of input earns.  Exactly one reply answers
    /// every request, carrying the request's id; text that is not a message
    /// earns the matching protocol error; inbound responses and errors are
    /// ignored.
    pub fn answer_line<P: ToolsProvider, Q: PromptProvider, R: ResourceProvider>(
        &mut self,
        line: &str,
        tools: Option<&P>,
        prompts: Option<&Q>,
        resources: Option<&R>,
    ) -> (r: (Option<String>, ServerStep))
        ensures
            final(self).config == old(self).config,
            final(self).handled == old(self).handled,
            final(self).transport == old(self).transport,
            r.1 == expected_step(line@),
            match spec_parse_message(line@) {
                Ok(MsgV::Request { id, method, params }) => {
                    &&& r.0 is Some
                    &&& reply_id(spec_reply_view(r.0->0@)) == Some(id)
                    &&& final(self).policy == (RetryPolicy {
                        consecutive_errors: 0u32,
                        ..old(self).policy
                    })
                    &&& !known_method(method) ==> spec_reply_view(r.0->0@) == (MsgV::Error {
                        id: Some(id),
                        code: CODE_METHOD_NOT_FOUND as int,
                        message: method_not_found_message(method),
                        data: None,
                    })
                },
                Ok(_) => r.0 is None && final(self).policy == old(self).policy,
                Err(WireFaultV::Malformed) => {
                    &&& r.0 is Some
                    &&& spec_reply_view(r.0->0@) == (MsgV::Error {
                        id: None,
                        code: CODE_PARSE_ERROR as int,
                        message: "Parse error: the message is not a JSON document"@,
                        data: None,
                    })
                    &&& final(self).policy == old(self).policy
                },
                Err(WireFaultV::Invalid(oid)) => {
                    &&& r.0 is Some
                    &&& spec_reply_view(r.0->0@) == (MsgV::Error {
                        id: oid,
                        code: CODE_INVALID_REQUEST as int,
                        message: "Invalid request: the document is not a JSON-RPC message"@,
                        data: None,
                    })
                    &&& final(self).policy == old(self).policy
                },
            },
    {
        match parse_message(line) {
            Ok(JSONRPCMessage::Request(req)) => {
                let (reply, stop) = dispatch_request(
                    &self.config,
                    &self.handled,
                    &req,
                    tools,
                    prompts,
                    resources,
                );
                let text = serialize_message(&reply);
                self.policy.note_success();
                let step = if stop {
                    ServerStep::Stop
                } else {
                    ServerStep::Continue
                };
                (Some(text), step)
            }
            Ok(_) => (None, ServerStep::Continue),
            Err(ParseFault::Malformed) => {
                let reply = JSONRPCMessage::Error(
                    JSONRPCError {
                        id: None,
                        code: CODE_PARSE_ERROR,
                        message: "Parse error: the message is not a JSON document".to_owned(),
                        data: None,
                    },
                );
                let text = serialize_message(&reply);
                (Some(text), ServerStep::Continue)
            }
            Err(ParseFault::Invalid(oid)) => {
                let reply = JSONRPCMessage::Error(
                    JSONRPCError {
                        id: oid,
                        code: CODE_INVALID_REQUEST,
                        message: "Invalid request: the document is not a JSON-RPC message".to_owned(),
                        data: None,
                    },
                );
                let text = serialize_message(&reply);
                (Some(text), ServerStep::Continue)
            }
        }
    }
}

/// What a reply line denotes, when it denotes a message.
pub open spec fn spec_reply_view(t: Seq<char>) -> MsgV
    recommends
        spec_parse_message(t) is Ok,
{
    match spec_parse_message(t) {
        Ok(w) => w,
        Err(_) => MsgV::Error { id: None, code: 0, message: Seq::empty(), data: None },
    }
}

/// The server's lifecycle behind one interface, for hosts that drive it
/// without caring about the transport underneath.
pub trait ServerTrait {
    /// Start the server.
    fn start(&mut self) -> Result<(), MCPError>;

    /// Process incoming requests.
    fn run(&mut self) -> Result<(), MCPError>;

    /// Stop the server.
    fn stop(&mut self) -> Result<(), MCPError>;
}

} // verus!
