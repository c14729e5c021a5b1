//! The stream transport: synchronous, newline-delimited text over the
//! process's standard streams.  No background thread: receiving blocks the
//! caller directly.

use vstd::prelude::*;
use std::io::Write;
use crate::error::MCPError;
use crate::transport::Connection;
use crate::transport::ConnectionState;
use crate::transport::Transport;
use crate::transport::spec_start;
use crate::transport::spec_close;

verus! {

/// A transport over the process's standard input and output.
pub struct StdioTransport {
    pub conn: Connection,
}

/// Relies on std::io::Stdout: writes the text and a newline, flushes, and
/// reports either failure as text.
#[verifier::external_body]
fn write_line_stdout(line: &str) -> (r: Result<(), String>) {
    let mut out = std::io::stdout();
    if let Err(e) = writeln!(out, "{}", line) {
        return Err(format!("Failed to write: {}", e));
    }
    if let Err(e) = out.flush() {
        return Err(format!("Failed to flush: {}", e));
    }
    Ok(())
}

/// Relies on std::io::Stdin's read_line: one line of input, `None` at the
/// end of the stream, failures as text.
#[verifier::external_body]
fn read_line_stdin() -> (r: Result<Option<String>, String>) {
    let mut line = String::new();
    match std::io::stdin().read_line(&mut line) {
        Ok(0) => Ok(None),
        Ok(_) => Ok(Some(line)),
        Err(e) => Err(format!("Failed to read: {}", e)),
    }
}

/// What one blocking line read means to the stream transport: a line is
/// the message, a clean end of stream is its own distinct transport error,
/// and a read failure surfaces as a transport error carrying its text.
fn classify_stream_read(outcome: Result<Option<String>, String>) -> (r: Result<String, MCPError>)
    ensures
        match outcome {
            Ok(line_opt) => match line_opt {
                Some(line) => r == Ok::<String, MCPError>(line),
                None => (r matches Err(MCPError::Transport(m)) && m@ == "end of input stream"@),
            },
            Err(m) => (r matches Err(MCPError::Transport(m2)) && m2@ == m@),
        },
{
    match outcome {
        Ok(Some(line)) => Ok(line),
        Ok(None) => Err(MCPError::Transport("end of input stream".to_owned())),
        Err(m) => Err(MCPError::Transport(m)),
    }
}

impl StdioTransport {
    /// Create a new stdio transport using stdin and stdout.
    pub fn new() -> (t: Self)
        ensures
            t.conn == (Connection { state: ConnectionState::Idle, close_notified: false }),
    {
        StdioTransport { conn: Connection::new() }
    }
}

impl Transport for StdioTransport {
    open spec fn connected(&self) -> bool {
        self.conn.state is Connected
    }

    fn start(&mut self) -> (r: Result<(), MCPError>)
        ensures
            (*final(self)).conn == spec_start((*old(self)).conn).0,
            r == spec_start((*old(self)).conn).1,
    {
        self.conn.start()
    }

    fn send_json(&mut self, json_string: &str) -> (r: Result<(), MCPError>)
        ensures
            (*final(self)).conn == (*old(self)).conn,
            old(self).connected() ==> r is Ok || r matches Err(MCPError::Transport(_)),
    {
        if !self.conn.is_connected() {
            return Err(MCPError::NotConnected);
        }
        match write_line_stdout(json_string) {
            Ok(()) => Ok(()),
            Err(m) => Err(MCPError::Transport(m)),
        }
    }

    fn receive_json(&mut self) -> (r: Result<String, MCPError>)
        ensures
            (*final(self)).conn == (*old(self)).conn,
            old(self).connected() ==> r is Ok || r matches Err(MCPError::Transport(_)),
    {
        if !self.conn.is_connected() {
            return Err(MCPError::NotConnected);
        }
        classify_stream_read(read_line_stdin())
    }

    fn close(&mut self) -> (r: Result<(), MCPError>)
        ensures
            r is Ok,
            (*final(self)).conn == spec_close((*old(self)).conn).0,
    {
        let _ = self.conn.close();
        Ok(())
    }

    fn is_connected(&self) -> (r: bool) {
        self.conn.is_connected()
    }
}

} // verus!
