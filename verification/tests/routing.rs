use ws_multiplexer::events::LifecycleEvent;
use ws_multiplexer::handler::{advance, writer_step, ConnectionEvent, ConnectionState, WriterAction};
use ws_multiplexer::plugin::NetworkManager;
use ws_multiplexer::{Message, WireFrame};

fn text(s: &str) -> Message {
    Message::Text(s.to_owned())
}

fn assert_text(message: &Message, expected: &str) {
    match message {
        Message::Text(t) => assert_eq!(t, expected),
        Message::Binary(_) => panic!("expected a text message"),
    }
}

#[test]
fn send_to_reaches_only_the_addressed_client() {
    let mut manager = NetworkManager::new();
    manager.client_connected(1);
    manager.client_connected(2);

    manager.send_message_to_client(text("x"), 1);

    let for_one = manager.take_outbound(1);
    assert_eq!(for_one.len(), 1);
    assert_text(&for_one[0], "x");

    let for_two = manager.take_outbound(2);
    assert!(for_two.is_empty());

    // the queue was drained; nothing is delivered twice
    assert!(manager.take_outbound(1).is_empty());
}

#[test]
fn send_to_absent_client_is_dropped() {
    let mut manager = NetworkManager::new();
    manager.client_connected(1);
    manager.send_message_to_client(text("ghost"), 99);
    assert!(manager.take_outbound(99).is_empty());
    assert!(manager.take_outbound(1).is_empty());
}

#[test]
fn broadcast_reaches_each_registered_client_once() {
    let mut manager = NetworkManager::new();
    manager.client_connected(1);
    manager.client_connected(2);
    manager.client_connected(3);

    manager.send_message_to_all(text("hello"));
    manager.client_connected(4);

    for id in 1..=3u64 {
        let queued = manager.take_outbound(id);
        assert_eq!(queued.len(), 1, "client {} must get it exactly once", id);
        assert_text(&queued[0], "hello");
    }
    // registered after the call: receives nothing from it
    assert!(manager.take_outbound(4).is_empty());
}

#[test]
fn close_frame_disconnects_exactly_once() {
    let mut manager = NetworkManager::new();
    manager.client_connected(5);
    assert!(manager.is_registered(5));

    manager.client_frame(5, WireFrame::Close);
    assert!(!manager.is_registered(5));
    assert_eq!(
        manager.drain_lifecycle_events(),
        vec![LifecycleEvent::Connected(5), LifecycleEvent::Disconnected(5)]
    );

    // a second close notification for the same id is a no-op
    manager.client_frame(5, WireFrame::Close);
    assert_eq!(manager.drain_lifecycle_events(), vec![]);
}

#[test]
fn inbound_messages_keep_arrival_order() {
    let mut manager = NetworkManager::new();
    manager.client_connected(8);
    manager.client_frame(8, WireFrame::Text("first".to_owned()));
    manager.client_frame(8, WireFrame::Binary(vec![1, 2, 3]));
    manager.client_frame(8, WireFrame::Ping(vec![0]));

    let inbound = manager.drain_messages();
    assert_eq!(inbound.len(), 2);
    assert_eq!(inbound[0].0, 8);
    assert_text(&inbound[0].1, "first");
    assert_eq!(inbound[1].0, 8);
    match &inbound[1].1 {
        Message::Binary(b) => assert_eq!(b, &vec![1, 2, 3]),
        Message::Text(_) => panic!("expected a binary message"),
    }

    assert!(manager.drain_messages().is_empty());
}

#[test]
fn frame_conversions_round_trip() {
    let msg = Message::from_frame(WireFrame::Text("abc".to_owned()));
    assert_text(&msg, "abc");
    match WireFrame::from(msg) {
        WireFrame::Text(t) => assert_eq!(t, "abc"),
        _ => panic!("expected a text frame"),
    }
    // control frames carry no payload for the application
    let marker = Message::from_frame(WireFrame::Pong(vec![7]));
    assert_text(&marker, "unsuported type");
}

#[test]
fn lifecycle_walks_forward_and_removed_is_terminal() {
    let mut state = ConnectionState::Accepted;
    state = advance(state, ConnectionEvent::HandshakeComplete);
    assert_eq!(state, ConnectionState::Registered);
    state = advance(state, ConnectionEvent::IoStarted);
    assert_eq!(state, ConnectionState::Active);
    state = advance(state, ConnectionEvent::CloseFrameReceived);
    assert_eq!(state, ConnectionState::Closing);
    state = advance(state, ConnectionEvent::Deregistered);
    assert_eq!(state, ConnectionState::Removed);
    state = advance(state, ConnectionEvent::HandshakeComplete);
    assert_eq!(state, ConnectionState::Removed);

    // an event that does not apply keeps the stage
    let parked = advance(ConnectionState::Registered, ConnectionEvent::CloseFrameReceived);
    assert_eq!(parked, ConnectionState::Registered);
}

#[test]
fn writer_polls_without_spinning() {
    assert_eq!(writer_step(false, 0), WriterAction::Exit);
    assert_eq!(writer_step(false, 3), WriterAction::Exit);
    assert_eq!(writer_step(true, 0), WriterAction::Idle);
    assert_eq!(writer_step(true, 2), WriterAction::Deliver);
}
