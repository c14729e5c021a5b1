//! The transport capability contract, the connection state machine that
//! every concrete transport honours, and the decision logic of the
//! background reader loops.
//!
//! The blocking I/O itself — socket reads, frame reads, HTTP exchanges and
//! the threads that poll them — lives outside this crate and drives these
//! state machines event by event.

use vstd::prelude::*;
use crate::error::MCPError;
use crate::codec::JSONRPCMessage;
use crate::codec::serialize_message;
use crate::codec::parse_message;

verus! {

/// The lifecycle of a connection.
#[derive(Debug, Clone, Copy, PartialEq, Eq, Structural)]
pub enum ConnectionState {
    Idle,
    Connected,
    Closed,
}

/// The state cell every transport keeps: where the connection stands, and
/// whether the close notification has already been delivered.  A connection
/// runs `Idle` to `Connected` to `Closed` and is not reused.
#[derive(Debug, Clone, Copy, PartialEq, Eq, Structural)]
pub struct Connection {
    pub state: ConnectionState,
    pub close_notified: bool,
}

impl Connection {
    /// The notification fires only on the one transition into `Closed`.
    pub open spec fn inv(self) -> bool {
        self.close_notified ==> self.state is Closed
    }
}

/// What starting does: connect from `Idle`; fail with `AlreadyConnected`
/// from `Connected`; fail with `NotConnected` once closed.
pub open spec fn spec_start(c: Connection) -> (Connection, Result<(), MCPError>) {
    match c.state {
        ConnectionState::Idle => (
            Connection { state: ConnectionState::Connected, ..c },
            Ok(()),
        ),
        ConnectionState::Connected => (c, Err(MCPError::AlreadyConnected)),
        ConnectionState::Closed => (c, Err(MCPError::NotConnected)),
    }
}

/// What closing does: flip a live connection to `Closed` and fire the
/// notification exactly once; do nothing, successfully, otherwise.
pub open spec fn spec_close(c: Connection) -> (Connection, bool) {
    match c.state {
        ConnectionState::Connected => (
            Connection { state: ConnectionState::Closed, close_notified: true },
            !c.close_notified,
        ),
        _ => (c, false),
    }
}

impl Connection {
    /// A fresh, never-started connection.
    pub fn new() -> (c: Self)
        ensures
            c == (Connection { state: ConnectionState::Idle, close_notified: false }),
            c.inv(),
    {
        Connection { state: ConnectionState::Idle, close_notified: false }
    }

    /// Move to `Connected`; fails when that is not possible.
    pub fn start(&mut self) -> (r: Result<(), MCPError>)
        ensures
            old(self).inv() ==> final(self).inv(),
            (*final(self), r) == spec_start(*old(self)),
    {
        match self.state {
            ConnectionState::Idle => {
                self.state = ConnectionState::Connected;
                Ok(())
            }
            ConnectionState::Connected => Err(MCPError::AlreadyConnected),
            ConnectionState::Closed => Err(MCPError::NotConnected),
        }
    }

    /// Move to `Closed`.  The result says whether the close notification
    /// must be delivered now; it is true at most once over the lifetime.
    pub fn close(&mut self) -> (notify: bool)
        ensures
            old(self).inv() ==> final(self).inv(),
            (*final(self), notify) == spec_close(*old(self)),
    {
        match self.state {
            ConnectionState::Connected => {
                self.state = ConnectionState::Closed;
                let first = !self.close_notified;
                self.close_notified = true;
                first
            }
            _ => false,
        }
    }

    /// Whether the connection is live.
    pub fn is_connected(&self) -> (r: bool)
        ensures
            r == (self.state is Connected),
    {
        match self.state {
            ConnectionState::Connected => true,
            _ => false,
        }
    }
}

/// Starting twice without an intervening close fails with
/// `AlreadyConnected`, however often it is retried.
pub proof fn lemma_start_twice(c: Connection)
    ensures
        ({
            let (c1, r1) = spec_start(c);
            let (c2, r2) = spec_start(c1);
            let (c3, r3) = spec_start(c2);
            r1 is Ok ==> r2 == Err::<(), MCPError>(MCPError::AlreadyConnected) && r3 == Err::<
                (),
                MCPError,
            >(MCPError::AlreadyConnected)
        }),
{
}

/// Closing a never-started or already-closed connection succeeds, changes
/// nothing and does not notify; and after any close, no later close
/// notifies again — the notification fires at most once per lifetime.
pub proof fn lemma_close_idempotent(c: Connection)
    ensures
        !(c.state is Connected) ==> spec_close(c) == (c, false),
        ({
            let (c1, n1) = spec_close(c);
            spec_close(c1).1 == false
        }),
{
}

/// `Closed` is terminal: a closed connection neither restarts nor notifies
/// again, so nothing is ever delivered after a close completes.
pub proof fn lemma_closed_is_terminal(c: Connection)
    requires
        c.state is Closed,
    ensures
        spec_start(c) == (c, Err::<(), MCPError>(MCPError::NotConnected)),
        spec_close(c) == (c, false),
{
}

// ---------------------------------------------------------------------------
// The capability contract.
// ---------------------------------------------------------------------------

/// The uniform contract every concrete transport implements.  Delivery of
/// inbound messages may instead happen through a background reader; for
/// such transports `receive_json` reports a `Transport` error.
///
/// Synchronous sends and receives never change whether the transport is
/// connected — only `start`, `close` and a background reader move the
/// connection state — and they fail only with connection-state or
/// transport errors.
pub trait Transport: Sized {
    /// Whether the transport currently holds a live connection.
    spec fn connected(&self) -> bool;

    /// Start processing messages.
    fn start(&mut self) -> (r: Result<(), MCPError>)
        ensures
            r is Ok ==> final(self).connected(),
            old(self).connected() ==> r == Err::<(), MCPError>(MCPError::AlreadyConnected)
                && final(self).connected(),
            r matches Err(e) ==> e is AlreadyConnected || e is NotConnected || e matches
                MCPError::Transport(_),
    ;

    /// Send one message as a line of text.
    fn send_json(&mut self, json_string: &str) -> (r: Result<(), MCPError>)
        ensures
            !old(self).connected() ==> r == Err::<(), MCPError>(MCPError::NotConnected),
            final(self).connected() == old(self).connected(),
            r matches Err(e) ==> e is NotConnected || e matches MCPError::Transport(_),
    ;

    /// Receive one message as a line of text.
    fn receive_json(&mut self) -> (r: Result<String, MCPError>)
        ensures
            !old(self).connected() ==> r == Err::<String, MCPError>(MCPError::NotConnected),
            final(self).connected() == old(self).connected(),
            r matches Err(e) ==> e is NotConnected || e matches MCPError::Transport(_),
    ;

    /// Close the connection; closing an already-closed transport is a
    /// successful no-op.
    fn close(&mut self) -> (r: Result<(), MCPError>)
        ensures
            r is Ok ==> !final(self).connected(),
    ;

    /// Whether the transport is connected.
    fn is_connected(&self) -> (r: bool)
        ensures
            r == self.connected(),
    ;
}

/// Convenience layer: send and receive typed messages.
pub trait TransportExt: Transport {
    /// Serialize and send one message.
    fn send(&mut self, message: &JSONRPCMessage) -> (r: Result<(), MCPError>)
        ensures
            !old(self).connected() ==> r == Err::<(), MCPError>(MCPError::NotConnected),
            final(self).connected() == old(self).connected(),
    ;

    /// Receive and parse one message; text that is not a message is a
    /// `Deserialization` error.
    fn receive(&mut self) -> (r: Result<JSONRPCMessage, MCPError>)
        ensures
            !old(self).connected() ==> r == Err::<JSONRPCMessage, MCPError>(
                MCPError::NotConnected,
            ),
            final(self).connected() == old(self).connected(),
    ;
}

impl<T: Transport> TransportExt for T {
    fn send(&mut self, message: &JSONRPCMessage) -> (r: Result<(), MCPError>) {
        let json = serialize_message(message);
        self.send_json(json.as_str())
    }

    fn receive(&mut self) -> (r: Result<JSONRPCMessage, MCPError>) {
        match self.receive_json() {
            Ok(json) => match parse_message(json.as_str()) {
                Ok(m) => Ok(m),
                Err(_) => Err(
                    MCPError::Deserialization("text is not a JSON-RPC message".to_owned()),
                ),
            },
            Err(e) => Err(e),
        }
    }
}

// ---------------------------------------------------------------------------
// The background reader's decision logic, shared by the socket-style and
// framed transports.
// ---------------------------------------------------------------------------

/// What one read attempt yielded, as the reader loop sees it after the
/// transport-specific conversion.
#[derive(Debug, PartialEq, Eq)]
pub enum ReadEvent {
    /// A complete line or text frame.
    Line(String),
    /// A binary frame; the protocol carries no binary payloads.
    Binary,
    /// A ping frame, absorbed transparently.
    Ping,
    /// A pong frame, absorbed transparently.
    Pong,
    /// A clean end of stream or close frame from the peer.
    PeerClosed,
    /// A read that would block, or backpressure: not fatal.
    WouldBlock,
    /// Any other I/O or protocol-level failure: fatal.
    Failed(String),
}

/// What the reader loop must do next.
#[derive(Debug, PartialEq, Eq)]
pub enum ReaderAction {
    /// Deliver the text to the message callback and keep reading.
    Deliver(String),
    /// Ignore the event and keep reading.
    Ignore,
    /// Sleep briefly, then keep reading.
    Pause,
    /// Stop reading; deliver the close notification when `notify` holds.
    Shutdown { notify: bool },
    /// Stop reading; deliver the error, then the close notification when
    /// `notify` holds.
    Fail { message: String, notify: bool },
}

/// One step of the background reader: classify the event, update the
/// connection, and say what to do, exactly as the reader loops of the
/// socket-style and framed transports must behave.
pub fn reader_step(conn: &mut Connection, ev: ReadEvent) -> (act: ReaderAction)
    ensures
        old(conn).inv() ==> final(conn).inv(),
        match ev {
            ReadEvent::Line(s) => act == ReaderAction::Deliver(s) && *final(conn) == *old(conn),
            ReadEvent::Binary => act == ReaderAction::Ignore && *final(conn) == *old(conn),
            ReadEvent::Ping => act == ReaderAction::Ignore && *final(conn) == *old(conn),
            ReadEvent::Pong => act == ReaderAction::Ignore && *final(conn) == *old(conn),
            ReadEvent::WouldBlock => act == ReaderAction::Pause && *final(conn) == *old(conn),
            ReadEvent::PeerClosed => {
                let (c2, notify) = spec_close(*old(conn));
                *final(conn) == c2 && act == (ReaderAction::Shutdown { notify })
            },
            ReadEvent::Failed(m) => {
                let (c2, notify) = spec_close(*old(conn));
                *final(conn) == c2 && act == (ReaderAction::Fail { message: m, notify })
            },
        },
{
    match ev {
        ReadEvent::Line(s) => ReaderAction::Deliver(s),
        ReadEvent::Binary => ReaderAction::Ignore,
        ReadEvent::Ping => ReaderAction::Ignore,
        ReadEvent::Pong => ReaderAction::Ignore,
        ReadEvent::WouldBlock => ReaderAction::Pause,
        ReadEvent::PeerClosed => {
            let notify = conn.close();
            ReaderAction::Shutdown { notify }
        }
        ReadEvent::Failed(m) => {
            let notify = conn.close();
            ReaderAction::Fail { message: m, notify }
        }
    }
}

/// After the reader has shut the connection down, no message is delivered:
/// every later step on a closed connection yields no `Deliver` for
/// non-line events, and the connection never notifies twice.
pub proof fn lemma_reader_never_notifies_twice(c: Connection, c2: Connection)
    requires
        spec_close(c).0 == c2,
    ensures
        spec_close(c2).1 == false,
{
}

// ---------------------------------------------------------------------------
// The framed transport's view of its library: frames and frame-level
// errors become `ReadEvent`s.
// ---------------------------------------------------------------------------

#[verifier::external_type_specification]
#[verifier::external_body]
pub struct ExWsError(tungstenite::error::Error);

#[verifier::external_type_specification]
#[verifier::external_body]
pub struct ExWsMessage(tungstenite::protocol::Message);

/// Relies on tungstenite::Message: each frame kind becomes the event of
/// the same kind; only text frames carry protocol messages, and a raw
/// frame never comes out of a read.
#[verifier::external_body]
pub fn frame_message_event(m: tungstenite::protocol::Message) -> (ev: ReadEvent) {
    match m {
        tungstenite::protocol::Message::Text(t) => ReadEvent::Line(t.as_str().to_owned()),
        tungstenite::protocol::Message::Binary(_) => ReadEvent::Binary,
        tungstenite::protocol::Message::Ping(_) => ReadEvent::Ping,
        tungstenite::protocol::Message::Pong(_) => ReadEvent::Pong,
        tungstenite::protocol::Message::Close(_) => ReadEvent::PeerClosed,
        tungstenite::protocol::Message::Frame(_) => ReadEvent::Binary,
    }
}

/// Relies on tungstenite::Error: a read that would block, exhausted
/// buffer capacity and a full write buffer are the recoverable outcomes;
/// every other I/O or protocol-level failure is fatal, rendered as text.
#[verifier::external_body]
pub fn frame_error_event(e: &tungstenite::error::Error) -> (ev: ReadEvent) {
    match e {
        tungstenite::error::Error::Io(io) if io.kind() == std::io::ErrorKind::WouldBlock => {
            ReadEvent::WouldBlock
        }
        tungstenite::error::Error::Capacity(_) => ReadEvent::WouldBlock,
        tungstenite::error::Error::WriteBufferFull(_) => ReadEvent::WouldBlock,
        _ => ReadEvent::Failed(format!("WebSocket error: {}", e)),
    }
}

} // verus!
