//! The error taxonomy, the retry policy, the server's dispatch, and the
//! client's round trips, driven over an in-memory transport.

use mcpr::client::Client;
use mcpr::client::ClientInterface;
use mcpr::codec::JSONRPCMessage;
use mcpr::codec::JSONRPCRequest;
use mcpr::codec::RequestId;
use mcpr::codec::parse_message;
use mcpr::codec::serialize_message;
use mcpr::error::MCPError;
use mcpr::json::Json;
use mcpr::prompt::PromptProvider;
use mcpr::resource::ResourceProvider;
use mcpr::server::RetryPolicy;
use mcpr::server::Server;
use mcpr::server::ServerConfig;
use mcpr::server::ServerStep;
use mcpr::stdio::StdioTransport;
use mcpr::tools::Tool;
use mcpr::tools::ToolsProvider;
use mcpr::transport::Transport;

fn key(k: &str, v: Json) -> (String, Json) {
    (k.to_string(), v)
}

// ---------------------------------------------------------------------------
// Test doubles.
// ---------------------------------------------------------------------------

/// Echoes its parameters back, like the original's echo example.
struct EchoTools;

impl ToolsProvider for EchoTools {
    fn get_tools(&self) -> Vec<Tool> {
        vec![Tool {
            name: "echo".to_string(),
            description: Some("echoes its input".to_string()),
            input_schema: Json::Null,
        }]
    }

    fn execute_tool(&self, name: &str, params: &Json) -> Result<Json, MCPError> {
        if name == "echo" {
            Ok(params.duplicate())
        } else {
            Err(MCPError::NotFound(name.to_string()))
        }
    }
}

struct NoPrompts;

impl PromptProvider for NoPrompts {
    fn get_prompts(&self) -> Vec<Json> {
        Vec::new()
    }

    fn get_prompt_messages(&self, _name: &str) -> Result<Vec<Json>, MCPError> {
        Err(MCPError::NotFound("no prompts".to_string()))
    }
}

struct NoResources;

impl ResourceProvider for NoResources {
    fn get_resources(&self) -> Vec<Json> {
        Vec::new()
    }

    fn get_resource(&self, uri: &str) -> Result<Json, MCPError> {
        Err(MCPError::NotFound(uri.to_string()))
    }
}

fn echo_server() -> Server<StdioTransport> {
    let config = ServerConfig::new().with_name("Echo Server").with_version("1.0.0").with_tool(
        Tool {
            name: "echo".to_string(),
            description: None,
            input_schema: Json::Null,
        },
    );
    let mut server = Server::new(config);
    server.register_tool_handler("echo").unwrap();
    server
}

/// An in-memory transport: every line sent becomes a request to an echo
/// server, whose reply is what the next receive yields.
struct LoopbackTransport {
    server: Server<StdioTransport>,
    started: bool,
    pending: Vec<String>,
}

impl LoopbackTransport {
    fn new() -> Self {
        LoopbackTransport { server: echo_server(), started: false, pending: Vec::new() }
    }
}

impl Transport for LoopbackTransport {
    fn connected(&self) -> bool {
        self.started
    }

    fn start(&mut self) -> Result<(), MCPError> {
        if self.started {
            return Err(MCPError::AlreadyConnected);
        }
        self.started = true;
        Ok(())
    }

    fn send_json(&mut self, json_string: &str) -> Result<(), MCPError> {
        if !self.started {
            return Err(MCPError::NotConnected);
        }
        let (reply, _step) = self.server.answer_line(
            json_string,
            Some(&EchoTools),
            Some(&NoPrompts),
            Some(&NoResources),
        );
        if let Some(text) = reply {
            self.pending.push(text);
        }
        Ok(())
    }

    fn receive_json(&mut self) -> Result<String, MCPError> {
        if !self.started {
            return Err(MCPError::NotConnected);
        }
        if self.pending.is_empty() {
            return Err(MCPError::Transport("no reply pending".to_string()));
        }
        Ok(self.pending.remove(0))
    }

    fn close(&mut self) -> Result<(), MCPError> {
        self.started = false;
        Ok(())
    }

    fn is_connected(&self) -> bool {
        self.started
    }
}

/// A transport whose receive side always reports the same failure.
struct FailingTransport {
    error_message: String,
}

impl Transport for FailingTransport {
    fn connected(&self) -> bool {
        true
    }

    fn start(&mut self) -> Result<(), MCPError> {
        Ok(())
    }

    fn send_json(&mut self, _json_string: &str) -> Result<(), MCPError> {
        Ok(())
    }

    fn receive_json(&mut self) -> Result<String, MCPError> {
        Err(MCPError::Transport(self.error_message.clone()))
    }

    fn close(&mut self) -> Result<(), MCPError> {
        Ok(())
    }

    fn is_connected(&self) -> bool {
        true
    }
}

/// A transport that answers `initialize` without a `server_info` field.
struct VagueTransport {
    started: bool,
    pending: Vec<String>,
}

impl Transport for VagueTransport {
    fn connected(&self) -> bool {
        self.started
    }

    fn start(&mut self) -> Result<(), MCPError> {
        if self.started {
            return Err(MCPError::AlreadyConnected);
        }
        self.started = true;
        Ok(())
    }

    fn send_json(&mut self, json_string: &str) -> Result<(), MCPError> {
        let req = match parse_message(json_string).unwrap() {
            JSONRPCMessage::Request(r) => r,
            other => panic!("not a request: {:?}", other),
        };
        let reply = JSONRPCMessage::Response(mcpr::codec::JSONRPCResponse::new(
            req.id,
            Json::Obj(vec![key("protocol_version", Json::Str("2024-11-05".to_string()))]),
        ));
        self.pending.push(serialize_message(&reply));
        Ok(())
    }

    fn receive_json(&mut self) -> Result<String, MCPError> {
        Ok(self.pending.remove(0))
    }

    fn close(&mut self) -> Result<(), MCPError> {
        self.started = false;
        Ok(())
    }

    fn is_connected(&self) -> bool {
        self.started
    }
}

// ---------------------------------------------------------------------------
// The error taxonomy.
// ---------------------------------------------------------------------------

#[test]
fn fatality_classification() {
    let m = "m".to_string();
    assert!(MCPError::Transport(m.clone()).is_fatal());
    assert!(MCPError::Protocol(m.clone()).is_fatal());
    assert!(MCPError::NotConnected.is_fatal());
    assert!(MCPError::Authentication(m.clone()).is_fatal());
    assert!(MCPError::Authorization(m.clone()).is_fatal());

    assert!(!MCPError::Serialization(m.clone()).is_fatal());
    assert!(!MCPError::Deserialization(m.clone()).is_fatal());
    assert!(!MCPError::NotFound(m.clone()).is_fatal());
    assert!(!MCPError::InvalidRequest(m.clone()).is_fatal());
    assert!(!MCPError::State(m.clone()).is_fatal());
    assert!(!MCPError::Transition(m.clone()).is_fatal());
    assert!(!MCPError::AlreadyConnected.is_fatal());
    assert!(!MCPError::Timeout.is_fatal());
    assert!(!MCPError::Internal(m.clone()).is_fatal());
}

#[test]
fn error_messages_carry_their_prefix() {
    assert_eq!(
        MCPError::Transport("oops".to_string()).message(),
        "Transport error: oops"
    );
    assert_eq!(MCPError::NotConnected.message(), "Transport error: Not connected");
    assert_eq!(MCPError::Internal("x".to_string()).message(), "Internal error: x");
}

// ---------------------------------------------------------------------------
// The retry policy.
// ---------------------------------------------------------------------------

#[test]
fn five_consecutive_failures_abort() {
    let mut policy = RetryPolicy::new();
    let err = MCPError::Internal("broken".to_string());
    for _ in 0..4 {
        assert!(!policy.note_error(&err));
    }
    assert!(policy.note_error(&err));
}

#[test]
fn a_success_resets_the_failure_count() {
    let mut policy = RetryPolicy::new();
    let err = MCPError::Transport("read failed".to_string());
    for _ in 0..4 {
        assert!(!policy.note_error(&err));
    }
    policy.note_success();
    assert_eq!(policy.consecutive_errors, 0);
    for _ in 0..4 {
        assert!(!policy.note_error(&err));
    }
    assert!(policy.note_error(&err));
}

#[test]
fn transient_errors_do_not_count() {
    let mut policy = RetryPolicy::new();
    for _ in 0..20 {
        assert!(!policy.note_error(&MCPError::NotConnected));
        assert!(!policy.note_error(&MCPError::AlreadyConnected));
    }
    assert_eq!(policy.consecutive_errors, 0);
}

#[test]
fn a_peer_reset_resets_the_count() {
    let mut policy = RetryPolicy::new();
    let err = MCPError::Internal("broken".to_string());
    for _ in 0..4 {
        assert!(!policy.note_error(&err));
    }
    let reset = MCPError::Transport("Connection reset by peer".to_string());
    assert!(!policy.note_error(&reset));
    assert_eq!(policy.consecutive_errors, 0);
}

#[test]
fn the_run_loop_returns_the_fatal_error() {
    // Drive the loop against a transport that always fails.
    let mut server = Server::new(ServerConfig::new());
    server.transport = Some(FailingTransport { error_message: "disk on fire".to_string() });
    let mut fatal = None;
    for _ in 0..10 {
        match server.process_message(
            Some(&EchoTools),
            Some(&NoPrompts),
            Some(&NoResources),
        ) {
            ServerStep::Fatal(e) => {
                fatal = Some(e);
                break;
            }
            ServerStep::Pause | ServerStep::Continue => continue,
            ServerStep::Stop => panic!("loop stopped cleanly"),
        }
    }
    assert_eq!(
        fatal.unwrap(),
        MCPError::Transport("disk on fire".to_string())
    );
    assert_eq!(server.policy.consecutive_errors, 5);
}

// ---------------------------------------------------------------------------
// Dispatch.
// ---------------------------------------------------------------------------

fn drive(server: &mut Server<StdioTransport>, line: &str) -> (Option<String>, ServerStep) {
    server.answer_line(line, Some(&EchoTools), Some(&NoPrompts), Some(&NoResources))
}

#[test]
fn unknown_method_is_answered_exactly() {
    let mut server = echo_server();
    let (reply, step) = drive(&mut server, "{\"jsonrpc\":\"2.0\",\"id\":1,\"method\":\"unknown_method\"}");
    assert_eq!(step, ServerStep::Continue);
    assert_eq!(
        reply.unwrap(),
        "{\"jsonrpc\":\"2.0\",\"id\":1,\"error\":{\"code\":-32601,\"message\":\"Method not found: unknown_method\"}}"
    );
}

#[test]
fn every_request_earns_exactly_one_reply_with_its_id() {
    let mut server = echo_server();
    for (id, method) in [
        (1, "initialize"),
        (2, "tools/list"),
        (3, "prompts/list"),
        (4, "resources/list"),
        (5, "no_such_method"),
    ] {
        let line = serialize_message(&JSONRPCMessage::Request(JSONRPCRequest::new(
            RequestId::Number(id),
            method.to_string(),
            None,
        )));
        let (reply, _step) = drive(&mut server, &line);
        match parse_message(&reply.expect(method)).unwrap() {
            JSONRPCMessage::Response(resp) => assert_eq!(resp.id, RequestId::Number(id)),
            JSONRPCMessage::Error(err) => assert_eq!(err.id, Some(RequestId::Number(id))),
            JSONRPCMessage::Request(_) => panic!("a request is no reply"),
        }
    }
}

#[test]
fn initialize_reports_identity_and_tools() {
    let mut server = echo_server();
    let line = "{\"jsonrpc\":\"2.0\",\"id\":1,\"method\":\"initialize\"}";
    let (reply, _) = drive(&mut server, line);
    let msg = parse_message(&reply.unwrap()).unwrap();
    let result = match msg {
        JSONRPCMessage::Response(resp) => resp.result,
        other => panic!("not a response: {:?}", other),
    };
    match result {
        Json::Obj(members) => {
            assert_eq!(
                members[0],
                ("protocol_version".to_string(), Json::Str("2024-11-05".to_string()))
            );
            assert_eq!(
                members[1],
                (
                    "server_info".to_string(),
                    Json::Obj(vec![
                        key("name", Json::Str("Echo Server".to_string())),
                        key("version", Json::Str("1.0.0".to_string())),
                    ])
                )
            );
            assert_eq!(
                members[2],
                (
                    "tools".to_string(),
                    Json::Arr(vec![Json::Obj(vec![
                        key("name", Json::Str("echo".to_string())),
                        key("input_schema", Json::Null),
                    ])])
                )
            );
        }
        other => panic!("not an object: {:?}", other),
    }
}

#[test]
fn shutdown_stops_the_loop() {
    let mut server = echo_server();
    let (reply, step) = drive(&mut server, "{\"jsonrpc\":\"2.0\",\"id\":4,\"method\":\"shutdown\"}");
    assert_eq!(step, ServerStep::Stop);
    assert_eq!(reply.unwrap(), "{\"jsonrpc\":\"2.0\",\"id\":4,\"result\":{}}");
}

#[test]
fn malformed_text_earns_a_parse_error_reply() {
    let mut server = echo_server();
    let (reply, step) = drive(&mut server, "this is not json");
    assert_eq!(step, ServerStep::Continue);
    match parse_message(&reply.unwrap()).unwrap() {
        JSONRPCMessage::Error(err) => {
            assert_eq!(err.code, -32700);
            assert_eq!(err.id, None);
        }
        other => panic!("not an error: {:?}", other),
    }
}

#[test]
fn invalid_documents_earn_an_invalid_request_reply() {
    let mut server = echo_server();
    let (reply, _) = drive(&mut server, "{\"jsonrpc\":\"1.0\",\"id\":6,\"method\":\"x\"}");
    match parse_message(&reply.unwrap()).unwrap() {
        JSONRPCMessage::Error(err) => {
            assert_eq!(err.code, -32600);
            assert_eq!(err.id, Some(RequestId::Number(6)));
        }
        other => panic!("not an error: {:?}", other),
    }
}

#[test]
fn tool_call_without_params_is_invalid_params() {
    let mut server = echo_server();
    let (reply, _) = drive(&mut server, "{\"jsonrpc\":\"2.0\",\"id\":8,\"method\":\"tool_call\"}");
    match parse_message(&reply.unwrap()).unwrap() {
        JSONRPCMessage::Error(err) => assert_eq!(err.code, -32602),
        other => panic!("not an error: {:?}", other),
    }
}

#[test]
fn unregistered_tool_is_an_internal_error() {
    let mut server = echo_server();
    let line = "{\"jsonrpc\":\"2.0\",\"id\":9,\"method\":\"tool_call\",\"params\":{\"name\":\"mystery\"}}";
    let (reply, _) = drive(&mut server, line);
    match parse_message(&reply.unwrap()).unwrap() {
        JSONRPCMessage::Error(err) => {
            assert_eq!(err.code, -32603);
            assert_eq!(err.message, "No handler registered for tool 'mystery'");
        }
        other => panic!("not an error: {:?}", other),
    }
}

#[test]
fn failing_tools_are_application_errors() {
    let config = ServerConfig::new().with_tool(Tool {
        name: "broken".to_string(),
        description: None,
        input_schema: Json::Null,
    });
    let mut server: Server<StdioTransport> = Server::new(config);
    server.register_tool_handler("broken").unwrap();
    struct BrokenTools;
    impl ToolsProvider for BrokenTools {
        fn get_tools(&self) -> Vec<Tool> {
            Vec::new()
        }
        fn execute_tool(&self, _name: &str, _params: &Json) -> Result<Json, MCPError> {
            Err(MCPError::Internal("kaput".to_string()))
        }
    }
    let line = "{\"jsonrpc\":\"2.0\",\"id\":3,\"method\":\"tool_call\",\"params\":{\"name\":\"broken\"}}";
    let (reply, _) = server.answer_line(line, Some(&BrokenTools), Some(&NoPrompts), Some(&NoResources));
    match parse_message(&reply.unwrap()).unwrap() {
        JSONRPCMessage::Error(err) => {
            assert_eq!(err.code, -32000);
            assert_eq!(err.message, "Tool execution failed: Internal error: kaput");
        }
        other => panic!("not an error: {:?}", other),
    }
}

#[test]
fn registering_an_unknown_tool_fails() {
    let mut server = echo_server();
    let err = server.register_tool_handler("mystery").unwrap_err();
    assert_eq!(
        err,
        MCPError::Protocol("Tool 'mystery' not found in server configuration".to_string())
    );
}

// ---------------------------------------------------------------------------
// The client.
// ---------------------------------------------------------------------------

#[test]
fn echo_round_trip_returns_the_input() {
    let mut client = Client::new(LoopbackTransport::new());
    let info = client.initialize().unwrap();
    assert_eq!(info.name, "Echo Server");
    assert_eq!(info.version, "1.0.0");

    let params = Json::Obj(vec![key("x", Json::Int(1))]);
    let result = client.call_tool("echo", &params).unwrap();
    assert_eq!(result, params);

    client.shutdown().unwrap();
    assert!(!client.transport.is_connected());
}

#[test]
fn listings_come_back_as_arrays() {
    let mut client = Client::new(LoopbackTransport::new());
    client.initialize().unwrap();
    assert_eq!(client.get_prompts().unwrap(), Vec::<Json>::new());
    assert_eq!(client.get_resources().unwrap(), Vec::<Json>::new());
}

#[test]
fn request_ids_increase_and_are_never_reused() {
    let mut client = Client::new(LoopbackTransport::new());
    client.initialize().unwrap();
    let first = client.request_id;
    client.call_tool("echo", &Json::Null).unwrap();
    let second = client.request_id;
    client.call_tool("echo", &Json::Null).unwrap();
    let third = client.request_id;
    assert!(first < second && second < third);
}

#[test]
fn initialize_without_server_info_fails_but_leaves_the_transport_started() {
    let mut client = Client::new(VagueTransport { started: false, pending: Vec::new() });
    let err = client.initialize().unwrap_err();
    assert_eq!(
        err,
        MCPError::Protocol("Missing server_info in response".to_string())
    );
    // Not auto-closed: the caller decides whether to retry or shut down.
    assert!(client.transport.is_connected());
}


#[test]
fn the_slash_alias_of_tool_call_dispatches_too() {
    let mut server = echo_server();
    let line = "{\"jsonrpc\":\"2.0\",\"id\":11,\"method\":\"tools/call\",\"params\":{\"name\":\"echo\",\"parameters\":{\"x\":1}}}";
    let (reply, _) = drive(&mut server, line);
    match parse_message(&reply.unwrap()).unwrap() {
        JSONRPCMessage::Response(resp) => {
            assert_eq!(resp.id, RequestId::Number(11));
            assert_eq!(
                resp.result,
                Json::Obj(vec![key("result", Json::Obj(vec![key("x", Json::Int(1))]))])
            );
        }
        other => panic!("not a response: {:?}", other),
    }
}

#[test]
fn missing_providers_are_internal_errors() {
    let mut server = echo_server();
    let line = "{\"jsonrpc\":\"2.0\",\"id\":12,\"method\":\"tools/list\"}";
    let (reply, _) = server.answer_line(
        line,
        None::<&EchoTools>,
        None::<&NoPrompts>,
        None::<&NoResources>,
    );
    match parse_message(&reply.unwrap()).unwrap() {
        JSONRPCMessage::Error(err) => {
            assert_eq!(err.code, -32603);
            assert_eq!(err.message, "No tools provider available");
        }
        other => panic!("not an error: {:?}", other),
    }
}

#[test]
fn prompt_messages_without_a_name_are_invalid_params() {
    let mut server = echo_server();
    let line = "{\"jsonrpc\":\"2.0\",\"id\":13,\"method\":\"get_prompt_messages\",\"params\":{}}";
    let (reply, _) = drive(&mut server, line);
    match parse_message(&reply.unwrap()).unwrap() {
        JSONRPCMessage::Error(err) => {
            assert_eq!(err.code, -32602);
            assert_eq!(err.message, "Invalid params: missing prompt name");
        }
        other => panic!("not an error: {:?}", other),
    }
}

#[test]
fn a_failing_prompt_provider_is_an_application_error() {
    let mut server = echo_server();
    let line = "{\"jsonrpc\":\"2.0\",\"id\":14,\"method\":\"get_prompt_messages\",\"params\":{\"name\":\"greet\"}}";
    let (reply, _) = drive(&mut server, line);
    match parse_message(&reply.unwrap()).unwrap() {
        JSONRPCMessage::Error(err) => {
            assert_eq!(err.code, -32000);
            assert_eq!(err.message, "Prompt provider error: Not found: no prompts");
        }
        other => panic!("not an error: {:?}", other),
    }
}

#[test]
fn inbound_replies_are_ignored_by_the_server() {
    let mut server = echo_server();
    let (reply, step) = drive(&mut server, "{\"jsonrpc\":\"2.0\",\"id\":15,\"result\":{}}");
    assert_eq!(reply, None);
    assert_eq!(step, ServerStep::Continue);
}

#[test]
fn the_client_works_behind_its_interface() {
    let mut boxed: Box<dyn ClientInterface> = Box::new(Client::new(LoopbackTransport::new()));
    boxed.initialize().unwrap();
    let echoed = boxed
        .call_tool("echo", &Json::Str("hello".to_string()))
        .unwrap();
    assert_eq!(echoed, Json::Str("hello".to_string()));
    boxed.shutdown().unwrap();
}


#[test]
fn a_server_refuses_a_second_transport() {
    let mut server = echo_server();
    server.start(StdioTransport::new()).unwrap();
    assert_eq!(
        server.start(StdioTransport::new()).unwrap_err(),
        MCPError::AlreadyConnected
    );
}

#[test]
fn added_tools_are_appended_in_order() {
    let mut server: Server<StdioTransport> = Server::new(ServerConfig::new());
    server.add_tools(vec![
        Tool { name: "first".to_string(), description: None, input_schema: Json::Null },
        Tool { name: "second".to_string(), description: None, input_schema: Json::Null },
    ]);
    server.register_tools_provider(&EchoTools).unwrap();
    let names: Vec<&str> = server.config.tools.iter().map(|t| t.name.as_str()).collect();
    assert_eq!(names, vec!["first", "second", "echo"]);
}

#[test]
fn resources_travel_under_their_member() {
    struct OneResource;
    impl ResourceProvider for OneResource {
        fn get_resources(&self) -> Vec<Json> {
            vec![Json::Str("doc://readme".to_string())]
        }
        fn get_resource(&self, uri: &str) -> Result<Json, MCPError> {
            Ok(Json::Str(format!("contents of {}", uri)))
        }
    }
    let mut server = echo_server();
    let line = "{\"jsonrpc\":\"2.0\",\"id\":21,\"method\":\"resources/get\",\"params\":{\"uri\":\"doc://readme\"}}";
    let (reply, _) = server.answer_line(line, Some(&EchoTools), Some(&NoPrompts), Some(&OneResource));
    match parse_message(&reply.unwrap()).unwrap() {
        JSONRPCMessage::Response(resp) => {
            assert_eq!(
                resp.result,
                Json::Obj(vec![key(
                    "resource",
                    Json::Str("contents of doc://readme".to_string()),
                )])
            );
        }
        other => panic!("not a response: {:?}", other),
    }
}

#[test]
fn a_shutdown_reply_that_is_an_error_frame_keeps_the_session_open() {
    /// Replies to everything with an error frame.
    struct RefusingTransport {
        started: bool,
        pending: Vec<String>,
    }
    impl Transport for RefusingTransport {
        fn connected(&self) -> bool {
            self.started
        }
        fn start(&mut self) -> Result<(), MCPError> {
            self.started = true;
            Ok(())
        }
        fn send_json(&mut self, json_string: &str) -> Result<(), MCPError> {
            let req = match parse_message(json_string).unwrap() {
                JSONRPCMessage::Request(r) => r,
                other => panic!("not a request: {:?}", other),
            };
            let reply = JSONRPCMessage::Error(mcpr::codec::JSONRPCError::new(
                req.id,
                -32000,
                "busy".to_string(),
                None,
            ));
            self.pending.push(serialize_message(&reply));
            Ok(())
        }
        fn receive_json(&mut self) -> Result<String, MCPError> {
            Ok(self.pending.remove(0))
        }
        fn close(&mut self) -> Result<(), MCPError> {
            self.started = false;
            Ok(())
        }
        fn is_connected(&self) -> bool {
            self.started
        }
    }
    let mut client = Client::new(RefusingTransport { started: false, pending: Vec::new() });
    client.transport.start().unwrap();
    let err = client.shutdown().unwrap_err();
    assert_eq!(err, MCPError::Protocol("Shutdown failed: busy".to_string()));
    assert!(client.transport.is_connected());
}
