use plugin_core::{
    BusError, DefaultMessageHandler, Message, MessageBus, MessageHandler, MessageSystem, Poll, Priority,
    SendOutcome,
};

fn hello() -> Message {
    Message::Broadcast { content: "hello".to_string(), priority: Priority::Normal }
}

#[test]
fn send_to_unknown_target_is_dropped() {
    let mut bus = MessageBus::new();
    let rx = bus.register_plugin("a").unwrap();
    assert!(matches!(bus.send("nobody", hello()), SendOutcome::UnknownTarget));
    assert!(rx.try_recv().is_err());
}

#[test]
fn send_reaches_the_named_target() {
    let mut bus = MessageBus::new();
    let a = bus.register_plugin("a").unwrap();
    let b = bus.register_plugin("b").unwrap();
    assert!(matches!(bus.send("b", hello()), SendOutcome::Delivered));
    assert!(a.try_recv().is_err());
    assert!(matches!(b.try_recv(), Ok(Message::Broadcast { .. })));
}

#[test]
fn registering_a_name_twice_is_refused() {
    let mut bus = MessageBus::new();
    let _a = bus.register_plugin("a").unwrap();
    assert_eq!(bus.register_plugin("a").err(), Some(BusError::AlreadyRegistered));
    assert!(bus.is_registered("a"));
    assert!(!bus.is_registered("b"));
}

#[test]
fn broadcast_survives_a_closed_mailbox() {
    let mut bus = MessageBus::new();
    let a = bus.register_plugin("a").unwrap();
    let b = bus.register_plugin("b").unwrap();
    let c = bus.register_plugin("c").unwrap();
    drop(b);
    let results = bus.broadcast(&hello());
    assert_eq!(results.len(), 3);
    assert!(results[0].is_ok());
    assert!(matches!(&results[1], Err(Message::Broadcast { content, priority: Priority::Normal }) if content == "hello"));
    assert!(results[2].is_ok());
    for rx in [&a, &c] {
        match rx.try_recv() {
            Ok(Message::Broadcast { content, priority }) => {
                assert_eq!(content, "hello");
                assert_eq!(priority, Priority::Normal);
            }
            other => panic!("unexpected {:?}", other),
        }
    }
}

#[test]
fn send_to_closed_mailbox_hands_message_back() {
    let mut bus = MessageBus::new();
    let a = bus.register_plugin("a").unwrap();
    drop(a);
    assert!(matches!(bus.send("a", hello()), SendOutcome::Closed(Message::Broadcast { .. })));
}

#[test]
fn shared_inbound_channel_round_trips() {
    let bus = MessageBus::new();
    assert!(matches!(bus.receive(), Poll::Empty));
    assert!(bus.post(hello()).is_ok());
    assert!(matches!(bus.receive(), Poll::Ready(Message::Broadcast { .. })));
}

#[test]
fn channel_handlers_share_their_channel() {
    let system = MessageSystem::new(2);
    assert_eq!(system.channels(), 2);
    let mut a = system.create_handler(0);
    let mut b = system.create_handler(0);
    let mut other = system.create_handler(1);
    assert!(a.send_message(hello()).is_ok());
    assert!(other.receive_message().is_none());
    assert!(matches!(b.receive_message(), Some(Message::Broadcast { .. })));
    assert!(a.receive_message().is_none());
}

#[test]
fn default_handler_sends_to_every_peer() {
    let (tx1, rx1) = crossbeam_channel::unbounded();
    let (tx2, rx2) = crossbeam_channel::unbounded();
    let (in_tx, in_rx) = crossbeam_channel::unbounded();
    let mut h = DefaultMessageHandler::new(vec![("one".to_string(), tx1), ("two".to_string(), tx2)], in_rx);
    assert!(h.send_message(hello()).is_ok());
    assert!(rx1.try_recv().is_ok());
    assert!(rx2.try_recv().is_ok());
    assert!(h.receive_message().is_none());
    in_tx.send(hello()).unwrap();
    assert!(h.receive_message().is_some());
    drop(rx2);
    assert!(matches!(h.send_message(hello()), Err(Message::Broadcast { .. })));
}

#[test]
fn handler_without_peers_sends_successfully() {
    let (_in_tx, in_rx) = crossbeam_channel::unbounded();
    let mut h = DefaultMessageHandler::new(Vec::new(), in_rx);
    assert!(h.send_message(hello()).is_ok());
}
