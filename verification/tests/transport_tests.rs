//! The connection state machine, the stdio transport's lifecycle, the
//! reader decisions, and the event-stream hub.

use mcpr::error::MCPError;
use mcpr::events::EventStreamHub;
use mcpr::stdio::StdioTransport;
use mcpr::transport::Connection;
use mcpr::transport::ReadEvent;
use mcpr::transport::ReaderAction;
use mcpr::transport::Transport;
use mcpr::transport::reader_step;

#[test]
fn test_transport_start_close() {
    let mut transport = StdioTransport::new();

    assert!(!transport.is_connected());
    let result = transport.start();
    assert!(result.is_ok());
    assert!(transport.is_connected());

    let result = transport.close();
    assert!(result.is_ok());
    assert!(!transport.is_connected());
}

#[test]
fn test_transport_callbacks() {
    // The close notification is handed back by the state machine instead
    // of being stored as a callback: it fires exactly once, on the one
    // transition into the closed state.
    let mut conn = Connection::new();
    conn.start().unwrap();
    let mut was_called = false;
    if conn.close() {
        was_called = true;
    }
    assert!(was_called);
}

#[test]
fn start_twice_yields_already_connected() {
    let mut transport = StdioTransport::new();
    assert!(transport.start().is_ok());
    assert_eq!(transport.start().unwrap_err(), MCPError::AlreadyConnected);
    assert_eq!(transport.start().unwrap_err(), MCPError::AlreadyConnected);
}

#[test]
fn close_is_idempotent_and_notifies_once() {
    let mut conn = Connection::new();
    // Never started: success, no notification.
    assert!(!conn.close());
    conn.start().unwrap();
    assert!(conn.close());
    // Already closed: success, and never a second notification.
    assert!(!conn.close());
    assert!(!conn.close());
}

#[test]
fn send_and_receive_require_a_connection() {
    let mut transport = StdioTransport::new();
    assert_eq!(
        transport.send_json("{}").unwrap_err(),
        MCPError::NotConnected
    );
    assert_eq!(transport.receive_json().unwrap_err(), MCPError::NotConnected);
}

#[test]
fn reader_classifies_events() {
    let mut conn = Connection::new();
    conn.start().unwrap();

    let act = reader_step(&mut conn, ReadEvent::Line("hello".to_string()));
    assert_eq!(act, ReaderAction::Deliver("hello".to_string()));

    assert_eq!(reader_step(&mut conn, ReadEvent::Binary), ReaderAction::Ignore);
    assert_eq!(reader_step(&mut conn, ReadEvent::Ping), ReaderAction::Ignore);
    assert_eq!(reader_step(&mut conn, ReadEvent::Pong), ReaderAction::Ignore);
    assert_eq!(reader_step(&mut conn, ReadEvent::WouldBlock), ReaderAction::Pause);

    // A fatal read error tears the connection down and notifies once.
    let act = reader_step(&mut conn, ReadEvent::Failed("boom".to_string()));
    assert_eq!(
        act,
        ReaderAction::Fail { message: "boom".to_string(), notify: true }
    );
    // The reader observing anything afterwards never notifies again.
    let act = reader_step(&mut conn, ReadEvent::PeerClosed);
    assert_eq!(act, ReaderAction::Shutdown { notify: false });
}

#[test]
fn event_stream_hub_keeps_fifo_order_per_client() {
    let mut hub = EventStreamHub::new();
    let a = hub.register_client();
    let b = hub.register_client();
    assert_ne!(a, b);

    // No current peer: sending fails.
    assert_eq!(
        hub.enqueue_for_current("x".to_string()).unwrap_err(),
        MCPError::NotConnected
    );

    hub.set_current(a);
    hub.enqueue_for_current("one".to_string()).unwrap();
    hub.enqueue_for_current("two".to_string()).unwrap();
    hub.set_current(b);
    hub.enqueue_for_current("other".to_string()).unwrap();

    assert_eq!(hub.poll(a).unwrap(), "one");
    assert_eq!(hub.poll(a).unwrap(), "two");
    assert_eq!(hub.poll(a), None);
    assert_eq!(hub.poll(b).unwrap(), "other");
    assert_eq!(hub.poll(b), None);

    // An unknown client polls nothing.
    assert_eq!(hub.poll(99), None);
}
