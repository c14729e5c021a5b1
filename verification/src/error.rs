//! The closed error taxonomy consumed by every other component, together
//! with the fatality classification that drives the server's retry policy.

use vstd::prelude::*;

verus! {

/// Every failure the engine can report.
///
/// `Transport`, `Protocol`, `NotConnected`, `Authentication` and
/// `Authorization` are fatal for the connection that produced them; the
/// remaining kinds are recoverable locally.
#[derive(Debug, Clone, PartialEq, Eq)]
pub enum MCPError {
    Transport(String),
    Serialization(String),
    Deserialization(String),
    Protocol(String),
    NotFound(String),
    InvalidRequest(String),
    Authentication(String),
    Authorization(String),
    State(String),
    Transition(String),
    AlreadyConnected,
    NotConnected,
    Timeout,
    Internal(String),
}

/// Which error kinds force the connection to be torn down rather than
/// retried in place.
pub open spec fn spec_is_fatal(e: MCPError) -> bool {
    match e {
        MCPError::Transport(_) => true,
        MCPError::Protocol(_) => true,
        MCPError::NotConnected => true,
        MCPError::Authentication(_) => true,
        MCPError::Authorization(_) => true,
        _ => false,
    }
}

impl MCPError {
    /// Check if an error is fatal and requires the connection to be terminated.
    pub fn is_fatal(&self) -> (r: bool)
        ensures
            r == spec_is_fatal(*self),
    {
        match self {
            MCPError::Transport(_) => true,
            MCPError::Protocol(_) => true,
            MCPError::NotConnected => true,
            MCPError::Authentication(_) => true,
            MCPError::Authorization(_) => true,
            MCPError::Serialization(_) => false,
            MCPError::Deserialization(_) => false,
            MCPError::NotFound(_) => false,
            MCPError::InvalidRequest(_) => false,
            MCPError::State(_) => false,
            MCPError::Transition(_) => false,
            MCPError::AlreadyConnected => false,
            MCPError::Timeout => false,
            MCPError::Internal(_) => false,
        }
    }

    /// The human-readable form of the error, with the same prefixes for each
    /// kind that the wire format's consumers expect.
    pub open spec fn spec_message(self) -> Seq<char> {
        match self {
            MCPError::Transport(m) => "Transport error: "@ + m@,
            MCPError::Serialization(m) => "Serialization error: "@ + m@,
            MCPError::Deserialization(m) => "Deserialization error: "@ + m@,
            MCPError::Protocol(m) => "Protocol error: "@ + m@,
            MCPError::NotFound(m) => "Not found: "@ + m@,
            MCPError::InvalidRequest(m) => "Invalid request: "@ + m@,
            MCPError::Authentication(m) => "Authentication error: "@ + m@,
            MCPError::Authorization(m) => "Authorization error: "@ + m@,
            MCPError::State(m) => "State error: "@ + m@,
            MCPError::Transition(m) => "Transition error: "@ + m@,
            MCPError::AlreadyConnected => "Transport error: Already connected"@,
            MCPError::NotConnected => "Transport error: Not connected"@,
            MCPError::Timeout => "Transport error: Operation timed out"@,
            MCPError::Internal(m) => "Internal error: "@ + m@,
        }
    }

    /// Render the error as one line of text.
    pub fn message(&self) -> (r: String)
        ensures
            r@ == self.spec_message(),
    {
        match self {
            MCPError::Transport(m) => concat_prefix("Transport error: ", m),
            MCPError::Serialization(m) => concat_prefix("Serialization error: ", m),
            MCPError::Deserialization(m) => concat_prefix("Deserialization error: ", m),
            MCPError::Protocol(m) => concat_prefix("Protocol error: ", m),
            MCPError::NotFound(m) => concat_prefix("Not found: ", m),
            MCPError::InvalidRequest(m) => concat_prefix("Invalid request: ", m),
            MCPError::Authentication(m) => concat_prefix("Authentication error: ", m),
            MCPError::Authorization(m) => concat_prefix("Authorization error: ", m),
            MCPError::State(m) => concat_prefix("State error: ", m),
            MCPError::Transition(m) => concat_prefix("Transition error: ", m),
            MCPError::AlreadyConnected => "Transport error: Already connected".to_owned(),
            MCPError::NotConnected => "Transport error: Not connected".to_owned(),
            MCPError::Timeout => "Transport error: Operation timed out".to_owned(),
            MCPError::Internal(m) => concat_prefix("Internal error: ", m),
        }
    }
}

/// Glue a fixed prefix onto a message.
fn concat_prefix(prefix: &str, msg: &String) -> (r: String)
    ensures
        r@ == prefix@ + msg@,
{
    let mut s = prefix.to_owned();
    s.append(msg.as_str());
    s
}

} // verus!
