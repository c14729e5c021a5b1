//! The client engine: one correlated request/response round trip per call,
//! over any transport, with a monotonically increasing request id.
//!
//! What each round trip sends is fixed by the contracted request builders;
//! what each reply means is fixed by the contracted interpreters.  The
//! public methods glue the two across the transport, whose synchronous
//! calls preserve connectedness by the transport contract.

use vstd::prelude::*;
use crate::error::MCPError;
use crate::json::Json;
use crate::json::JsonV;
use crate::json::json_view;
use crate::json::views_of;
use crate::json::member_views_of;
use crate::json::lemma_member_views_of_index;
use crate::json::lemma_member_views_of_len;
use crate::codec::JSONRPCMessage;
use crate::codec::JSONRPCRequest;
use crate::codec::RequestId;
use crate::codec::id_view;
use crate::codec::json_member;
use crate::codec::jv_lookup;
use crate::codec::parse_message;
use crate::codec::serialize_message;
use crate::transport::Transport;
use crate::text::str_concat;

verus! {

/// A party's identity: its name and version.
#[derive(Debug, PartialEq, Eq)]
pub struct Implementation {
    pub name: String,
    pub version: String,
}

/// How issuing a request id moves the counter: the id is the old counter,
/// which then increases, so no id is ever issued twice.
pub open spec fn spec_next_id(c: i64) -> (i64, RequestId) {
    if c < 0x7fff_ffff_ffff_ffff {
        ((c + 1) as i64, RequestId::Number(c))
    } else {
        (c, RequestId::Number(c))
    }
}

/// Two successive issues never repeat an id: each issued id is strictly
/// below the counter afterwards, and later issues only see larger counters.
pub proof fn lemma_request_ids_unique(c: i64)
    requires
        c < 0x7fff_ffff_ffff_ffff,
    ensures
        ({
            let (c2, id1) = spec_next_id(c);
            let (c3, id2) = spec_next_id(c2);
            id1 != id2 && id_view(id1) != id_view(id2)
        }),
{
}

/// The member a key selects in an object value, if the value is an object
/// carrying it.
pub open spec fn obj_member_v(v: JsonV, k: Seq<char>) -> Option<JsonV> {
    match v {
        JsonV::Obj(ms) => jv_lookup(ms, k),
        _ => None,
    }
}

// ---------------------------------------------------------------------------
// Reply interpreters: what each kind of reply means to the engine.
// ---------------------------------------------------------------------------

/// What the reply to `initialize` must carry: a `server_info` object with
/// the server's name and version.
pub open spec fn server_info_of(result: JsonV) -> Option<(Seq<char>, Seq<char>)> {
    match result {
        JsonV::Obj(ms) => match jv_lookup(ms, "server_info"@) {
            Some(JsonV::Obj(info)) => match (jv_lookup(info, "name"@), jv_lookup(
                info,
                "version"@,
            )) {
                (Some(JsonV::Str(n)), Some(JsonV::Str(v))) => Some((n, v)),
                _ => None,
            },
            _ => None,
        },
        _ => None,
    }
}

/// Interpret the reply to `initialize`: extract the server identity, or
/// report the protocol violation the reply commits.  A reply lacking a
/// usable `server_info` is a `Protocol` error; the caller leaves the
/// transport as it stands.
pub fn interpret_initialize_reply(m: &JSONRPCMessage) -> (r: Result<Implementation, MCPError>)
    ensures
        match m {
            JSONRPCMessage::Response(resp) => match server_info_of(json_view(resp.result)) {
                Some((n, v)) => r matches Ok(info) && info.name@ == n && info.version@ == v,
                None => r matches Err(MCPError::Protocol(msg)) && msg@
                    == "Missing server_info in response"@,
            },
            JSONRPCMessage::Error(e) => r matches Err(MCPError::Protocol(msg)) && msg@
                == "Initialization failed: "@ + e.message@,
            JSONRPCMessage::Request(_) => r matches Err(MCPError::Protocol(msg)) && msg@
                == "Unexpected response type"@,
        },
{
    match m {
        JSONRPCMessage::Response(resp) => {
            match json_member(&resp.result, "server_info") {
                Some(info) => {
                    let name = json_member(&info, "name");
                    let version = json_member(&info, "version");
                    match (name, version) {
                        (Some(Json::Str(n)), Some(Json::Str(v))) => Ok(
                            Implementation { name: n, version: v },
                        ),
                        _ => Err(
                            MCPError::Protocol("Missing server_info in response".to_owned()),
                        ),
                    }
                }
                None => Err(MCPError::Protocol("Missing server_info in response".to_owned())),
            }
        }
        JSONRPCMessage::Error(e) => Err(
            MCPError::Protocol(str_concat("Initialization failed: ", e.message.as_str())),
        ),
        JSONRPCMessage::Request(_) => Err(MCPError::Protocol("Unexpected response type".to_owned())),
    }
}

/// Interpret the reply to a tool call: the `result` member of the response
/// is the tool's value; an error frame becomes a `Protocol` error carrying
/// the server's message.
pub fn interpret_tool_reply(m: &JSONRPCMessage) -> (r: Result<Json, MCPError>)
    ensures
        match m {
            JSONRPCMessage::Response(resp) => match obj_member_v(json_view(resp.result), "result"@) {
                Some(v) => r matches Ok(j) && json_view(j) == v,
                None => r matches Err(MCPError::Protocol(msg)) && msg@
                    == "Missing 'result' field in response"@,
            },
            JSONRPCMessage::Error(e) => r matches Err(MCPError::Protocol(msg)) && msg@
                == "Tool call failed: "@ + e.message@,
            JSONRPCMessage::Request(_) => r matches Err(MCPError::Protocol(msg)) && msg@
                == "Unexpected response type"@,
        },
{
    match m {
        JSONRPCMessage::Response(resp) => match json_member(&resp.result, "result") {
            Some(v) => Ok(v),
            None => Err(MCPError::Protocol("Missing 'result' field in response".to_owned())),
        },
        JSONRPCMessage::Error(e) => Err(
            MCPError::Protocol(str_concat("Tool call failed: ", e.message.as_str())),
        ),
        JSONRPCMessage::Request(_) => Err(MCPError::Protocol("Unexpected response type".to_owned())),
    }
}

/// Interpret a listing reply: the array under the given key is the
/// listing; a member of another shape, a missing member and an error frame
/// each earn their own failure.
pub fn interpret_listing_reply(m: &JSONRPCMessage, key: &str) -> (r: Result<Vec<Json>, MCPError>)
    ensures
        match m {
            JSONRPCMessage::Response(resp) => match obj_member_v(json_view(resp.result), key@) {
                Some(lv) => match lv {
                    JsonV::Arr(items) => r matches Ok(v) && views_of(v@) == items,
                    _ => r matches Err(MCPError::Serialization(msg)) && msg@
                        == "listing field is not an array"@,
                },
                None => r matches Err(MCPError::Protocol(msg)) && msg@ == "Missing '"@ + key@
                    + "' field in response"@,
            },
            JSONRPCMessage::Error(e) => r matches Err(MCPError::Protocol(msg)) && msg@
                == "Listing request failed: "@ + e.message@,
            JSONRPCMessage::Request(_) => r matches Err(MCPError::Protocol(msg)) && msg@
                == "Unexpected response type"@,
        },
{
    match m {
        JSONRPCMessage::Response(resp) => match json_member(&resp.result, key) {
            Some(Json::Arr(items)) => Ok(items),
            Some(_) => Err(MCPError::Serialization("listing field is not an array".to_owned())),
            None => Err(
                MCPError::Protocol(
                    crate::text::str_concat3("Missing '", key, "' field in response"),
                ),
            ),
        },
        JSONRPCMessage::Error(e) => Err(
            MCPError::Protocol(str_concat("Listing request failed: ", e.message.as_str())),
        ),
        JSONRPCMessage::Request(_) => Err(MCPError::Protocol("Unexpected response type".to_owned())),
    }
}

/// Interpret the reply to a resource fetch: the `resource` member of the
/// response is the contents.
pub fn interpret_resource_reply(m: &JSONRPCMessage) -> (r: Result<Json, MCPError>)
    ensures
        match m {
            JSONRPCMessage::Response(resp) => match obj_member_v(
                json_view(resp.result),
                "resource"@,
            ) {
                Some(v) => r matches Ok(j) && json_view(j) == v,
                None => r matches Err(MCPError::Protocol(msg)) && msg@
                    == "Missing 'resource' field in response"@,
            },
            JSONRPCMessage::Error(e) => r matches Err(MCPError::Protocol(msg)) && msg@
                == "Get resource failed: "@ + e.message@,
            JSONRPCMessage::Request(_) => r matches Err(MCPError::Protocol(msg)) && msg@
                == "Unexpected response type"@,
        },
{
    match m {
        JSONRPCMessage::Response(resp) => match json_member(&resp.result, "resource") {
            Some(v) => Ok(v),
            None => Err(MCPError::Protocol("Missing 'resource' field in response".to_owned())),
        },
        JSONRPCMessage::Error(e) => Err(
            MCPError::Protocol(str_concat("Get resource failed: ", e.message.as_str())),
        ),
        JSONRPCMessage::Request(_) => Err(MCPError::Protocol("Unexpected response type".to_owned())),
    }
}

/// Interpret the shutdown acknowledgement: only an explicit error frame
/// refuses the shutdown; any other reply counts as successful shutdown
/// intent.
pub fn interpret_shutdown_reply(m: &JSONRPCMessage) -> (r: Result<(), MCPError>)
    ensures
        match m {
            JSONRPCMessage::Error(e) => r matches Err(MCPError::Protocol(msg)) && msg@
                == "Shutdown failed: "@ + e.message@,
            _ => r is Ok,
        },
{
    match m {
        JSONRPCMessage::Error(e) => Err(
            MCPError::Protocol(str_concat("Shutdown failed: ", e.message.as_str())),
        ),
        _ => Ok(()),
    }
}

// ---------------------------------------------------------------------------
// The client.
// ---------------------------------------------------------------------------

/// The client: a transport, the identity it announces, cached server
/// metadata, and the id counter.
pub struct Client<T: Transport> {
    pub transport: T,
    pub server_info: Option<Implementation>,
    pub protocol_version: String,
    pub capabilities: Json,
    pub client_info: Implementation,
    pub request_id: i64,
    pub cached_tools: Option<Json>,
}

/// The parameters of a tool call: the tool's name and its arguments.
fn call_params(tool_name: &str, params: &Json) -> (p: Json)
    ensures
        json_view(p) == JsonV::Obj(
            seq![("name"@, JsonV::Str(tool_name@)), ("parameters"@, json_view(*params))],
        ),
{
    let mut ms: Vec<(String, Json)> = Vec::new();
    ms.push(("name".to_owned(), Json::Str(tool_name.to_owned())));
    ms.push(("parameters".to_owned(), params.duplicate()));
    proof {
        lemma_member_views_of_len(ms@);
        lemma_member_views_of_index(ms@, 0);
        lemma_member_views_of_index(ms@, 1);
        assert(member_views_of(ms@) =~= seq![
            ("name"@, JsonV::Str(tool_name@)),
            ("parameters"@, json_view(*params)),
        ]);
    }
    Json::Obj(ms)
}

/// The parameters of a resource fetch: the resource's URI.
fn uri_params(uri: &str) -> (p: Json)
    ensures
        json_view(p) == JsonV::Obj(seq![("uri"@, JsonV::Str(uri@))]),
{
    let mut ms: Vec<(String, Json)> = Vec::new();
    ms.push(("uri".to_owned(), Json::Str(uri.to_owned())));
    proof {
        lemma_member_views_of_len(ms@);
        lemma_member_views_of_index(ms@, 0);
        assert(member_views_of(ms@) =~= seq![("uri"@, JsonV::Str(uri@))]);
    }
    Json::Obj(ms)
}

impl<T: Transport> Client<T> {
    /// Create a new client with the given transport, stored unstarted.
    pub fn new(transport: T) -> (c: Self)
        ensures
            c.transport == transport,
            c.request_id == 1i64,
            c.server_info is None,
            c.cached_tools is None,
            c.protocol_version@ == "2024-11-05"@,
    {
        Client {
            transport,
            server_info: None,
            protocol_version: "2024-11-05".to_owned(),
            capabilities: Json::Obj(Vec::new()),
            client_info: Implementation {
                name: "mcpr".to_owned(),
                version: "0.1.0".to_owned(),
            },
            request_id: 1,
            cached_tools: None,
        }
    }

    /// Create a new client with custom configuration.
    pub fn with_config(
        transport: T,
        protocol_version: String,
        client_info: Implementation,
        capabilities: Json,
    ) -> (c: Self)
        ensures
            c.transport == transport,
            c.request_id == 1i64,
            c.server_info is None,
            c.cached_tools is None,
            c.protocol_version == protocol_version,
            c.client_info == client_info,
            c.capabilities == capabilities,
    {
        Client {
            transport,
            server_info: None,
            protocol_version,
            capabilities,
            client_info,
            request_id: 1,
            cached_tools: None,
        }
    }

    /// Generate the next request id; ids strictly increase, so none is
    /// ever reused within a session.
    fn next_request_id(&mut self) -> (id: RequestId)
        ensures
            (final(self).request_id, id) == spec_next_id(old(self).request_id),
            final(self).transport == old(self).transport,
            final(self).server_info == old(self).server_info,
            final(self).cached_tools == old(self).cached_tools,
            final(self).protocol_version == old(self).protocol_version,
            final(self).capabilities == old(self).capabilities,
            final(self).client_info == old(self).client_info,
    {
        let id = self.request_id;
        if self.request_id < i64::MAX {
            self.request_id = self.request_id + 1;
        }
        RequestId::Number(id)
    }

    /// Build one outbound request: a fresh id, the given method and
    /// parameters.
    fn build_request(&mut self, method: String, params: Option<Json>) -> (req: JSONRPCRequest)
        ensures
            (final(self).request_id, req.id) == spec_next_id(old(self).request_id),
            req.method == method,
            req.params == params,
            final(self).transport == old(self).transport,
            final(self).server_info == old(self).server_info,
            final(self).cached_tools == old(self).cached_tools,
            final(self).protocol_version == old(self).protocol_version,
            final(self).capabilities == old(self).capabilities,
            final(self).client_info == old(self).client_info,
    {
        let id = self.next_request_id();
        JSONRPCRequest { id, method, params }
    }

    /// The parameters announced by `initialize`: this client's protocol
    /// version, capabilities and identity.
    fn initialize_params(&self) -> (p: Json)
        ensures
            json_view(p) == JsonV::Obj(
                seq![
                    ("protocol_version"@, JsonV::Str(self.protocol_version@)),
                    ("capabilities"@, json_view(self.capabilities)),
                    (
                        "client_info"@,
                        JsonV::Obj(
                            seq![
                                ("name"@, JsonV::Str(self.client_info.name@)),
                                ("version"@, JsonV::Str(self.client_info.version@)),
                            ],
                        ),
                    ),
                ],
            ),
    {
        let mut info: Vec<(String, Json)> = Vec::new();
        info.push(("name".to_owned(), Json::Str(self.client_info.name.clone())));
        info.push(("version".to_owned(), Json::Str(self.client_info.version.clone())));
        proof {
            lemma_member_views_of_len(info@);
            lemma_member_views_of_index(info@, 0);
            lemma_member_views_of_index(info@, 1);
            assert(member_views_of(info@) =~= seq![
                ("name"@, JsonV::Str(self.client_info.name@)),
                ("version"@, JsonV::Str(self.client_info.version@)),
            ]);
        }
        let mut ms: Vec<(String, Json)> = Vec::new();
        ms.push(("protocol_version".to_owned(), Json::Str(self.protocol_version.clone())));
        ms.push(("capabilities".to_owned(), self.capabilities.duplicate()));
        ms.push(("client_info".to_owned(), Json::Obj(info)));
        proof {
            lemma_member_views_of_len(ms@);
            lemma_member_views_of_index(ms@, 0);
            lemma_member_views_of_index(ms@, 1);
            lemma_member_views_of_index(ms@, 2);
            assert(member_views_of(ms@) =~= seq![
                ("protocol_version"@, JsonV::Str(self.protocol_version@)),
                ("capabilities"@, json_view(self.capabilities)),
                (
                    "client_info"@,
                    JsonV::Obj(
                        seq![
                            ("name"@, JsonV::Str(self.client_info.name@)),
                            ("version"@, JsonV::Str(self.client_info.version@)),
                        ],
                    ),
                ),
            ]);
        }
        Json::Obj(ms)
    }

    /// One round trip: send the request, then block for the reply.  Only
    /// the transport is touched, and its connectedness is preserved.
    fn round_trip(&mut self, req: &JSONRPCRequest) -> (r: Result<JSONRPCMessage, MCPError>)
        ensures
            final(self).transport.connected() == old(self).transport.connected(),
            final(self).server_info == old(self).server_info,
            final(self).cached_tools == old(self).cached_tools,
            final(self).request_id == old(self).request_id,
            final(self).protocol_version == old(self).protocol_version,
            final(self).capabilities == old(self).capabilities,
            final(self).client_info == old(self).client_info,
            r matches Err(e) ==> e is NotConnected || e matches MCPError::Transport(_) || e
                matches MCPError::Deserialization(_),
    {
        let text = serialize_message(&JSONRPCMessage::Request(JSONRPCRequest {
            id: req.id.duplicate(),
            method: req.method.clone(),
            params: match &req.params {
                Some(p) => Some(p.duplicate()),
                None => None,
            },
        }));
        match self.transport.send_json(text.as_str()) {
            Ok(()) => {}
            Err(e) => {
                return Err(e);
            }
        }
        match self.transport.receive_json() {
            Ok(line) => match parse_message(line.as_str()) {
                Ok(m) => Ok(m),
                Err(_) => Err(
                    MCPError::Deserialization("reply is not a JSON-RPC message".to_owned()),
                ),
            },
            Err(e) => Err(e),
        }
    }

    /// Initialize the session: start the transport, announce this client,
    /// and cache the server's identity and initial tool listing.  A reply
    /// without `server_info` fails with a `Protocol` error and leaves the
    /// transport started, so the caller can retry or shut down; failure
    /// changes no cached metadata.
    pub fn initialize(&mut self) -> (r: Result<Implementation, MCPError>)
        ensures
            final(self).protocol_version == old(self).protocol_version,
            final(self).capabilities == old(self).capabilities,
            final(self).client_info == old(self).client_info,
            r matches Ok(info) ==> (final(self).server_info matches Some(si) && si.name@
                == info.name@ && si.version@ == info.version@),
            r is Err ==> final(self).server_info == old(self).server_info
                && final(self).cached_tools == old(self).cached_tools,
            r matches Err(e) ==> ((e is Protocol || e is Deserialization)
                ==> final(self).transport.connected()),
    {
        match self.transport.start() {
            Ok(()) => {}
            Err(e) => {
                return Err(e);
            }
        }
        let params = self.initialize_params();
        let req = self.build_request("initialize".to_owned(), Some(params));
        let reply = match self.round_trip(&req) {
            Ok(m) => m,
            Err(e) => {
                return Err(e);
            }
        };
        match interpret_initialize_reply(&reply) {
            Ok(info) => {
                match &reply {
                    JSONRPCMessage::Response(resp) => {
                        match json_member(&resp.result, "tools") {
                            Some(tools) => {
                                self.cached_tools = Some(tools);
                            }
                            None => {}
                        }
                    }
                    _ => {}
                }
                self.server_info = Some(Implementation {
                    name: info.name.clone(),
                    version: info.version.clone(),
                });
                Ok(info)
            }
            Err(e) => Err(e),
        }
    }

    /// Call a tool on the server: one `tool_call` request carrying the
    /// tool's name and parameters, answered by the unwrapped `result`
    /// member of the reply (see `interpret_tool_reply`).
    pub fn call_tool(&mut self, tool_name: &str, params: &Json) -> (r: Result<Json, MCPError>)
        ensures
            final(self).request_id == spec_next_id(old(self).request_id).0,
            final(self).transport.connected() == old(self).transport.connected(),
            final(self).server_info == old(self).server_info,
            final(self).cached_tools == old(self).cached_tools,
            final(self).protocol_version == old(self).protocol_version,
            final(self).capabilities == old(self).capabilities,
            final(self).client_info == old(self).client_info,
    {
        let ps = call_params(tool_name, params);
        let req = self.build_request("tool_call".to_owned(), Some(ps));
        let reply = match self.round_trip(&req) {
            Ok(m) => m,
            Err(e) => {
                return Err(e);
            }
        };
        interpret_tool_reply(&reply)
    }

    /// Fetch the prompt listing: one `prompts/list` request, answered by
    /// the array under `prompts` (see `interpret_listing_reply`).
    pub fn get_prompts(&mut self) -> (r: Result<Vec<Json>, MCPError>)
        ensures
            final(self).request_id == spec_next_id(old(self).request_id).0,
            final(self).transport.connected() == old(self).transport.connected(),
            final(self).server_info == old(self).server_info,
            final(self).cached_tools == old(self).cached_tools,
            final(self).protocol_version == old(self).protocol_version,
            final(self).capabilities == old(self).capabilities,
            final(self).client_info == old(self).client_info,
    {
        let req = self.build_request("prompts/list".to_owned(), None);
        let reply = match self.round_trip(&req) {
            Ok(m) => m,
            Err(e) => {
                return Err(e);
            }
        };
        interpret_listing_reply(&reply, "prompts")
    }

    /// Fetch the resource listing: one `resources/list` request, answered
    /// by the array under `resources` (see `interpret_listing_reply`).
    pub fn get_resources(&mut self) -> (r: Result<Vec<Json>, MCPError>)
        ensures
            final(self).request_id == spec_next_id(old(self).request_id).0,
            final(self).transport.connected() == old(self).transport.connected(),
            final(self).server_info == old(self).server_info,
            final(self).cached_tools == old(self).cached_tools,
            final(self).protocol_version == old(self).protocol_version,
            final(self).capabilities == old(self).capabilities,
            final(self).client_info == old(self).client_info,
    {
        let req = self.build_request("resources/list".to_owned(), None);
        let reply = match self.round_trip(&req) {
            Ok(m) => m,
            Err(e) => {
                return Err(e);
            }
        };
        interpret_listing_reply(&reply, "resources")
    }

    /// Fetch one resource by its URI: one `resources/get` request carrying
    /// the URI, answered by the `resource` member of the reply (see
    /// `interpret_resource_reply`).
    pub fn get_resource(&mut self, uri: &str) -> (r: Result<Json, MCPError>)
        ensures
            final(self).request_id == spec_next_id(old(self).request_id).0,
            final(self).transport.connected() == old(self).transport.connected(),
            final(self).server_info == old(self).server_info,
            final(self).cached_tools == old(self).cached_tools,
            final(self).protocol_version == old(self).protocol_version,
            final(self).capabilities == old(self).capabilities,
            final(self).client_info == old(self).client_info,
    {
        let ps = uri_params(uri);
        let req = self.build_request("resources/get".to_owned(), Some(ps));
        let reply = match self.round_trip(&req) {
            Ok(m) => m,
            Err(e) => {
                return Err(e);
            }
        };
        interpret_resource_reply(&reply)
    }

    /// Shut the session down: request shutdown, then close the transport.
    /// A malformed acknowledgement still counts as shutdown intent, so the
    /// transport is closed in that case too; only an explicit error frame
    /// leaves it open and fails (see `interpret_shutdown_reply`).
    pub fn shutdown(&mut self) -> (r: Result<(), MCPError>)
        ensures
            final(self).request_id == spec_next_id(old(self).request_id).0,
            final(self).server_info == old(self).server_info,
            final(self).cached_tools == old(self).cached_tools,
            final(self).protocol_version == old(self).protocol_version,
            final(self).capabilities == old(self).capabilities,
            final(self).client_info == old(self).client_info,
            r is Ok ==> !final(self).transport.connected(),
    {
        let req = self.build_request("shutdown".to_owned(), None);
        let text = serialize_message(&JSONRPCMessage::Request(req));
        match self.transport.send_json(text.as_str()) {
            Ok(()) => {}
            Err(e) => {
                return Err(e);
            }
        }
        match self.transport.receive_json() {
            Ok(line) => match parse_message(line.as_str()) {
                Ok(m) => match interpret_shutdown_reply(&m) {
                    Ok(()) => self.transport.close(),
                    Err(e) => Err(e),
                },
                Err(_) => {
                    // An acknowledgement this client cannot make sense of:
                    // the server was still asked to stop, so the session
                    // ends.
                    self.transport.close()
                }
            },
            Err(e) => Err(e),
        }
    }
}

/// The client's operations behind one object-safe interface, for callers
/// that do not care which transport stands underneath.
pub trait ClientInterface {
    /// Initialize the session.
    fn initialize(&mut self) -> Result<Implementation, MCPError>;

    /// Shut the session down.
    fn shutdown(&mut self) -> Result<(), MCPError>;

    /// Call a tool on the server.
    fn call_tool(&mut self, name: &str, parameters: &Json) -> Result<Json, MCPError>;

    /// Fetch the prompt listing.
    fn get_prompts(&mut self) -> Result<Vec<Json>, MCPError>;

    /// Fetch the resource listing.
    fn get_resources(&mut self) -> Result<Vec<Json>, MCPError>;

    /// Fetch one resource by its URI.
    fn get_resource(&mut self, uri: &str) -> Result<Json, MCPError>;
}

impl<T: Transport> ClientInterface for Client<T> {
    fn initialize(&mut self) -> Result<Implementation, MCPError> {
        Client::initialize(self)
    }

    fn shutdown(&mut self) -> Result<(), MCPError> {
        Client::shutdown(self)
    }

    fn call_tool(&mut self, name: &str, parameters: &Json) -> Result<Json, MCPError> {
        Client::call_tool(self, name, parameters)
    }

    fn get_prompts(&mut self) -> Result<Vec<Json>, MCPError> {
        Client::get_prompts(self)
    }

    fn get_resources(&mut self) -> Result<Vec<Json>, MCPError> {
        Client::get_resources(self)
    }

    fn get_resource(&mut self, uri: &str) -> Result<Json, MCPError> {
        Client::get_resource(self, uri)
    }
}

} // verus!
