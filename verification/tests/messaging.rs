use waddle::bus::BroadcastEventBus;
use waddle::channel::Channel;
use waddle::event::{
    ChatMessage, ChatState, Event, EventPayload, EventSource, MessageType,
};
use waddle::message::MessageManager;
use waddle::store::{QueueStatus, Store};

fn make_event(channel: &str, payload: EventPayload) -> Event {
    Event::new(
        Channel::new(channel.to_string()).unwrap(),
        EventSource::System("test".to_string()),
        payload,
    )
}

fn make_xmpp_event(channel: &str, payload: EventPayload) -> Event {
    Event::new(Channel::new(channel.to_string()).unwrap(), EventSource::Xmpp, payload)
}

fn make_chat_message(id: &str, from: &str, to: &str, body: &str) -> ChatMessage {
    ChatMessage {
        id: id.to_string(),
        from: from.to_string(),
        to: to.to_string(),
        body: body.to_string(),
        timestamp: 0,
        message_type: MessageType::Chat,
        thread: None,
    }
}

fn connected(jid: &str) -> Event {
    make_event(
        "system.connection.established",
        EventPayload::ConnectionEstablished { jid: jid.to_string() },
    )
}

#[test]
fn message_persistence_is_idempotent() {
    let mut store = Store::new();
    let msg = make_chat_message("m-1", "alice@x", "bob@x", "hello");
    store.insert_message(&msg);
    store.insert_message(&msg);
    assert_eq!(store.message_count(), 1);
}

#[test]
fn offline_drain_order() {
    // With the manager offline, two sends enqueue; coming online drains
    // the queue in ascending id order: "first" then "second", each row
    // moving pending → sent.
    let mut store = Store::new();
    let mut bus = BroadcastEventBus::new(32);
    let mut messaging = MessageManager::new();

    let m1 = messaging.send_message(&mut store, &mut bus, "bob@x", "first");
    let m2 = messaging.send_message(&mut store, &mut bus, "carol@x", "second");
    assert!(!m1.id.is_empty());
    assert!(!m2.id.is_empty());
    assert_eq!(store.queue_len(), 2);
    assert_eq!(store.queue_get(0).status, QueueStatus::Pending);
    assert_eq!(store.queue_get(1).status, QueueStatus::Pending);

    let mut ui = bus.subscribe("ui.message.send").unwrap();
    assert!(ui.recv(&bus).unwrap().is_none(), "offline send must not emit");

    messaging.handle_event(&mut store, &mut bus, &connected("alice@x"));

    let first = ui.recv(&bus).unwrap().expect("first drained event");
    assert!(matches!(
        &first.payload,
        EventPayload::MessageSendRequested { body, .. } if body == "first"
    ));
    let second = ui.recv(&bus).unwrap().expect("second drained event");
    assert!(matches!(
        &second.payload,
        EventPayload::MessageSendRequested { body, .. } if body == "second"
    ));
    assert!(ui.recv(&bus).unwrap().is_none());

    assert_eq!(store.queue_get(0).status, QueueStatus::Sent);
    assert_eq!(store.queue_get(1).status, QueueStatus::Sent);
}

#[test]
fn three_confirmation_paths() {
    // Starting from sent rows: a delivery receipt confirms by id, and an
    // archive result confirms an unrelated sent row of ours.
    let mut store = Store::new();
    let mut bus = BroadcastEventBus::new(32);
    let mut messaging = MessageManager::new();

    let m1 = messaging.send_message(&mut store, &mut bus, "bob@x", "first");
    let m2 = messaging.send_message(&mut store, &mut bus, "carol@x", "second");
    messaging.handle_event(&mut store, &mut bus, &connected("alice@x"));
    assert_eq!(store.queue_get(0).status, QueueStatus::Sent);
    assert_eq!(store.queue_get(1).status, QueueStatus::Sent);

    // Path 2: explicit delivery receipt for m1.
    messaging.handle_event(
        &mut store,
        &mut bus,
        &make_xmpp_event(
            "xmpp.message.delivered",
            EventPayload::MessageDelivered { id: m1.id.clone(), to: "bob@x".to_string() },
        ),
    );
    assert_eq!(store.queue_get(0).status, QueueStatus::Confirmed);
    assert_eq!(store.queue_get(1).status, QueueStatus::Sent);

    // Path 3: the archive saw the second message (under its own stanza
    // id), authored by us.
    messaging.handle_event(
        &mut store,
        &mut bus,
        &make_xmpp_event(
            "xmpp.mam.result.received",
            EventPayload::MamResultReceived {
                query_id: "q1".to_string(),
                messages: vec![make_chat_message("archive-id-99", "alice@x", "carol@x", "second")],
                complete: true,
            },
        ),
    );
    assert_eq!(store.queue_get(1).status, QueueStatus::Confirmed);

    // Path 1 separately: a server echo moves a pending row to sent.
    let m3 = messaging.send_message(&mut store, &mut bus, "dave@x", "third");
    // Sending online marks the row sent right away; force the pending
    // case through an offline send.
    let lost = make_event(
        "system.connection.lost",
        EventPayload::ConnectionLost { reason: "x".to_string(), will_retry: true },
    );
    messaging.handle_event(&mut store, &mut bus, &lost);
    let m4 = messaging.send_message(&mut store, &mut bus, "erin@x", "fourth");
    assert_eq!(store.queue_get(3).status, QueueStatus::Pending);
    messaging.handle_event(
        &mut store,
        &mut bus,
        &make_xmpp_event(
            "xmpp.message.sent",
            EventPayload::MessageSent {
                message: make_chat_message(&m4.id, "alice@x", "erin@x", "fourth"),
            },
        ),
    );
    assert_eq!(store.queue_get(3).status, QueueStatus::Sent);
    let _ = m3;
}

#[test]
fn one_to_one_messaging_send_receive_persist() {
    let mut store = Store::new();
    let mut bus = BroadcastEventBus::new(32);
    let mut messaging = MessageManager::new();
    messaging.handle_event(&mut store, &mut bus, &connected("alice@example.com"));

    let mut ui = bus.subscribe("ui.**").unwrap();
    let sent = messaging.send_message(&mut store, &mut bus, "bob@example.com", "Hello Bob!");
    assert!(!sent.id.is_empty());
    assert_eq!(sent.to, "bob@example.com");
    assert_eq!(sent.from, "alice@example.com");

    let event = ui.recv(&bus).unwrap().expect("send event");
    assert!(matches!(
        &event.payload,
        EventPayload::MessageSendRequested { to, body, .. }
            if to == "bob@example.com" && body == "Hello Bob!"
    ));

    let reply = make_chat_message("reply-1", "bob@example.com", "alice@example.com", "Hey!");
    messaging.handle_event(
        &mut store,
        &mut bus,
        &make_xmpp_event("xmpp.message.received", EventPayload::MessageReceived { message: reply }),
    );

    let messages = messaging.get_messages(&store, "bob@example.com", 50, None);
    assert_eq!(messages.len(), 2);
    let bodies: Vec<&str> = messages.iter().map(|m| m.body.as_str()).collect();
    assert!(bodies.contains(&"Hello Bob!"));
    assert!(bodies.contains(&"Hey!"));
    // Newest first: the reply came after the send.
    assert_eq!(messages[0].body, "Hey!");
}

#[test]
fn get_messages_paginates_newest_first() {
    let mut store = Store::new();
    let mut bus = BroadcastEventBus::new(64);
    let mut messaging = MessageManager::new();
    messaging.handle_event(&mut store, &mut bus, &connected("alice@x"));
    let m1 = messaging.send_message(&mut store, &mut bus, "bob@x", "one");
    let _m2 = messaging.send_message(&mut store, &mut bus, "bob@x", "two");
    let m3 = messaging.send_message(&mut store, &mut bus, "bob@x", "three");

    let latest = messaging.get_messages(&store, "bob@x", 2, None);
    assert_eq!(latest.len(), 2);
    assert_eq!(latest[0].body, "three");
    assert_eq!(latest[1].body, "two");

    let older = messaging.get_messages(&store, "bob@x", 50, Some(m3.id.as_str()));
    assert_eq!(older.len(), 2);
    assert_eq!(older[0].body, "two");
    assert_eq!(older[1].body, "one");

    let oldest = messaging.get_messages(&store, "bob@x", 50, Some(m1.id.as_str()));
    assert!(oldest.is_empty());
}

#[test]
fn offline_queue_non_message_commands_auto_confirmed() {
    let mut store = Store::new();
    let mut bus = BroadcastEventBus::new(32);
    let mut messaging = MessageManager::new();

    // A roster-add request passes by while offline: it is intercepted
    // into the queue as an iq command.
    let add_event = Event::new(
        Channel::new("ui.roster.add".to_string()).unwrap(),
        EventSource::System("roster".to_string()),
        EventPayload::RosterAddRequested {
            jid: "dave@example.com".to_string(),
            name: Some("Dave".to_string()),
            groups: vec![],
        },
    );
    messaging.handle_event(&mut store, &mut bus, &add_event);
    assert_eq!(store.queue_len(), 1);
    assert_eq!(store.queue_get(0).status, QueueStatus::Pending);
    assert_eq!(store.queue_get(0).stanza_type, waddle::store::StanzaType::Iq);

    // Coming online drains it; non-message commands have no ack pathway
    // and go straight to confirmed.
    messaging.handle_event(&mut store, &mut bus, &connected("alice@example.com"));
    assert_eq!(store.queue_get(0).status, QueueStatus::Confirmed);

    // While online, the same request passes through untouched.
    messaging.handle_event(&mut store, &mut bus, &add_event);
    assert_eq!(store.queue_len(), 1);
}

#[test]
fn chat_state_notifications_across_messaging() {
    let mut store = Store::new();
    let mut bus = BroadcastEventBus::new(32);
    let mut messaging = MessageManager::new();
    messaging.handle_event(&mut store, &mut bus, &connected("alice@example.com"));

    let mut ui = bus.subscribe("ui.chatstate.send").unwrap();
    messaging
        .send_chat_state(&mut bus, "bob@example.com", ChatState::Composing)
        .unwrap();
    let event = ui.recv(&bus).unwrap().expect("chat state event");
    assert!(matches!(
        &event.payload,
        EventPayload::ChatStateSendRequested { to, state: ChatState::Composing }
            if to == "bob@example.com"
    ));

    // Receiving a peer's chat state is acknowledged and otherwise ignored.
    messaging.handle_event(
        &mut store,
        &mut bus,
        &make_xmpp_event(
            "xmpp.chatstate.received",
            EventPayload::ChatStateReceived {
                from: "bob@example.com".to_string(),
                state: ChatState::Active,
            },
        ),
    );
}

#[test]
fn going_offline_emits_signal_and_keeps_queue() {
    let mut store = Store::new();
    let mut bus = BroadcastEventBus::new(32);
    let mut messaging = MessageManager::new();
    messaging.handle_event(&mut store, &mut bus, &connected("alice@x"));
    let _ = messaging.send_message(&mut store, &mut bus, "bob@x", "hi");
    let mut sys = bus.subscribe("system.going.offline").unwrap();

    messaging.handle_event(
        &mut store,
        &mut bus,
        &make_event(
            "system.connection.lost",
            EventPayload::ConnectionLost { reason: "x".to_string(), will_retry: true },
        ),
    );
    let ev = sys.recv(&bus).unwrap().expect("going offline");
    assert!(matches!(ev.payload, EventPayload::GoingOffline));
    assert_eq!(store.queue_len(), 1);

    // Sends while offline enqueue without emitting.
    let mut ui = bus.subscribe("ui.message.send").unwrap();
    let msg = messaging.send_message(&mut store, &mut bus, "bob@x", "offline msg");
    assert!(!msg.id.is_empty());
    assert!(ui.recv(&bus).unwrap().is_none());
}

#[test]
fn mam_result_confirms_by_matching_id() {
    // The archive may echo our own client-generated id; the row is
    // confirmed by the id alone, whatever the content.
    let mut store = Store::new();
    let mut bus = BroadcastEventBus::new(32);
    let mut messaging = MessageManager::new();
    messaging.handle_event(&mut store, &mut bus, &connected("alice@x"));
    let m1 = messaging.send_message(&mut store, &mut bus, "bob@x", "first");
    assert_eq!(store.queue_get(0).status, QueueStatus::Sent);

    messaging.handle_event(
        &mut store,
        &mut bus,
        &make_xmpp_event(
            "xmpp.mam.result.received",
            EventPayload::MamResultReceived {
                query_id: "q1".to_string(),
                messages: vec![make_chat_message(&m1.id, "someone@y", "else@y", "other")],
                complete: true,
            },
        ),
    );
    assert_eq!(store.queue_get(0).status, QueueStatus::Confirmed);
}
