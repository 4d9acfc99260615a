use waddle::bus::BroadcastEventBus;
use waddle::channel::Channel;
use waddle::event::{
    ChatMessage, Event, EventPayload, EventSource, MessageType, MucAffiliation, MucOccupant,
    MucRole, PresenceShow, ScrollDirection,
};
use waddle::mam::MamManager;
use waddle::muc::MucManager;
use waddle::store::Store;

fn make_xmpp_event(channel: &str, payload: EventPayload) -> Event {
    Event::new(Channel::new(channel.to_string()).unwrap(), EventSource::Xmpp, payload)
}

fn make_chat_message(id: &str, from: &str, to: &str, body: &str) -> ChatMessage {
    ChatMessage {
        id: id.to_string(),
        from: from.to_string(),
        to: to.to_string(),
        body: body.to_string(),
        timestamp: 0,
        message_type: MessageType::Chat,
        thread: None,
    }
}

#[test]
fn muc_join_message_occupant_leave_flow() {
    let mut store = Store::new();
    let mut bus = BroadcastEventBus::new(32);
    let mut muc = MucManager::new();

    muc.join_room(&mut store, &mut bus, "room@conference.example.com", "Alice")
        .unwrap();

    muc.handle_event(
        &mut store,
        &mut bus,
        &make_xmpp_event(
            "xmpp.muc.joined",
            EventPayload::MucJoined {
                room: "room@conference.example.com".to_string(),
                nick: "Alice".to_string(),
            },
        ),
    );
    let rooms = muc.get_joined_rooms(&store);
    assert_eq!(rooms.len(), 1);
    assert!(rooms[0].joined);

    muc.handle_event(
        &mut store,
        &mut bus,
        &make_xmpp_event(
            "xmpp.muc.occupant.changed",
            EventPayload::MucOccupantChanged {
                room: "room@conference.example.com".to_string(),
                occupant: MucOccupant {
                    nick: "Bob".to_string(),
                    jid: Some("bob@example.com".to_string()),
                    affiliation: MucAffiliation::Member,
                    role: MucRole::Participant,
                },
            },
        ),
    );
    let occupants = muc.get_occupants("room@conference.example.com");
    assert_eq!(occupants.len(), 1);
    assert_eq!(occupants[0].nick, "Bob");

    let msg = ChatMessage {
        id: "muc-msg-1".to_string(),
        from: "room@conference.example.com/Bob".to_string(),
        to: "room@conference.example.com".to_string(),
        body: "Hello room!".to_string(),
        timestamp: 0,
        message_type: MessageType::Groupchat,
        thread: None,
    };
    muc.handle_event(
        &mut store,
        &mut bus,
        &make_xmpp_event(
            "xmpp.muc.message.received",
            EventPayload::MucMessageReceived {
                room: "room@conference.example.com".to_string(),
                message: msg,
            },
        ),
    );
    let messages = muc.get_room_messages(&store, "room@conference.example.com", 50, None);
    assert_eq!(messages.len(), 1);
    assert_eq!(messages[0].body, "Hello room!");

    muc.handle_event(
        &mut store,
        &mut bus,
        &make_xmpp_event(
            "xmpp.muc.subject.changed",
            EventPayload::MucSubjectChanged {
                room: "room@conference.example.com".to_string(),
                subject: "Sprint Planning".to_string(),
            },
        ),
    );
    let rooms = muc.get_joined_rooms(&store);
    assert_eq!(rooms[0].subject, Some("Sprint Planning".to_string()));

    // Bob leaves: role none removes the occupant.
    muc.handle_event(
        &mut store,
        &mut bus,
        &make_xmpp_event(
            "xmpp.muc.occupant.changed",
            EventPayload::MucOccupantChanged {
                room: "room@conference.example.com".to_string(),
                occupant: MucOccupant {
                    nick: "Bob".to_string(),
                    jid: Some("bob@example.com".to_string()),
                    affiliation: MucAffiliation::Member,
                    role: MucRole::NoRole,
                },
            },
        ),
    );
    assert!(muc.get_occupants("room@conference.example.com").is_empty());

    muc.handle_event(
        &mut store,
        &mut bus,
        &make_xmpp_event(
            "xmpp.muc.left",
            EventPayload::MucLeft { room: "room@conference.example.com".to_string() },
        ),
    );
    assert!(muc.get_joined_rooms(&store).is_empty());
}

#[test]
fn muc_lifecycle_scenario() {
    // join_room → MucJoined → two occupant changes (join, then role
    // none) → MucLeft leaves no joined room.
    let mut store = Store::new();
    let mut bus = BroadcastEventBus::new(32);
    let mut muc = MucManager::new();
    let mut ui = bus.subscribe("ui.muc.join").unwrap();

    muc.join_room(&mut store, &mut bus, "r@conf/", "Alice").unwrap();
    let ev = ui.recv(&bus).unwrap().expect("join request");
    assert!(matches!(
        &ev.payload,
        EventPayload::MucJoinRequested { room, nick } if room == "r@conf/" && nick == "Alice"
    ));

    muc.handle_event(
        &mut store,
        &mut bus,
        &make_xmpp_event(
            "xmpp.muc.joined",
            EventPayload::MucJoined { room: "r@conf/".to_string(), nick: "Alice".to_string() },
        ),
    );

    muc.handle_event(
        &mut store,
        &mut bus,
        &make_xmpp_event(
            "xmpp.muc.occupant.changed",
            EventPayload::MucOccupantChanged {
                room: "r@conf/".to_string(),
                occupant: MucOccupant {
                    nick: "Bob".to_string(),
                    jid: None,
                    affiliation: MucAffiliation::Member,
                    role: MucRole::Participant,
                },
            },
        ),
    );
    assert_eq!(muc.get_occupants("r@conf/").len(), 1);

    muc.handle_event(
        &mut store,
        &mut bus,
        &make_xmpp_event(
            "xmpp.muc.occupant.changed",
            EventPayload::MucOccupantChanged {
                room: "r@conf/".to_string(),
                occupant: MucOccupant {
                    nick: "Bob".to_string(),
                    jid: None,
                    affiliation: MucAffiliation::Member,
                    role: MucRole::NoRole,
                },
            },
        ),
    );
    assert!(muc.get_occupants("r@conf/").is_empty());

    muc.handle_event(
        &mut store,
        &mut bus,
        &make_xmpp_event("xmpp.muc.left", EventPayload::MucLeft { room: "r@conf/".to_string() }),
    );
    assert!(muc.get_joined_rooms(&store).is_empty());
}

#[test]
fn muc_send_emits_event() {
    let mut bus = BroadcastEventBus::new(16);
    let muc = MucManager::new();
    let mut ui = bus.subscribe("ui.**").unwrap();
    muc.send_message(&mut bus, "room@conference.example.com", "Hey everyone!")
        .unwrap();
    let event = ui.recv(&bus).unwrap().expect("send event");
    assert!(matches!(
        &event.payload,
        EventPayload::MucSendRequested { room, body }
            if room == "room@conference.example.com" && body == "Hey everyone!"
    ));
}

#[test]
fn persist_message_deduplicates() {
    let mut store = Store::new();
    let msg = make_chat_message("mam-1", "alice@example.com", "bob@example.com", "Hello");
    store.insert_message(&msg);
    store.insert_message(&msg);
    assert_eq!(store.message_count(), 1);
}

#[test]
fn sync_state_round_trip() {
    let mut store = Store::new();
    assert!(store.get_cursor("__global__").is_none());
    store.set_cursor("__global__", "archive-id-42", 0);
    assert_eq!(store.get_cursor("__global__"), Some("archive-id-42".to_string()));
}

#[test]
fn sync_state_update_replaces() {
    let mut store = Store::new();
    store.set_cursor("__global__", "archive-id-1", 0);
    store.set_cursor("__global__", "archive-id-2", 0);
    assert_eq!(store.get_cursor("__global__"), Some("archive-id-2".to_string()));
}

#[test]
fn sync_state_per_jid() {
    let mut store = Store::new();
    store.set_cursor("alice@example.com", "a-1", 0);
    store.set_cursor("bob@example.com", "b-1", 0);
    assert_eq!(store.get_cursor("alice@example.com"), Some("a-1".to_string()));
    assert_eq!(store.get_cursor("bob@example.com"), Some("b-1".to_string()));
}

#[test]
fn sync_since_emits_events_and_persists() {
    let mut store = Store::new();
    let mut bus = BroadcastEventBus::new(64);
    let mut mam = MamManager::new();
    let mut sys = bus.subscribe("system.**").unwrap();
    let mut ui = bus.subscribe("ui.**").unwrap();

    mam.sync_since(&store, &mut bus, 0).unwrap();

    let query_event = ui.recv(&bus).unwrap().expect("query event");
    let query_id = match &query_event.payload {
        EventPayload::MamQueryRequested { query_id, .. } => query_id.clone(),
        other => panic!("expected MamQueryRequested, got {:?}", other),
    };

    bus.publish(make_xmpp_event(
        "xmpp.mam.result.received",
        EventPayload::MamResultReceived {
            query_id: query_id.clone(),
            messages: vec![make_chat_message("arch-1", "alice@example.com", "bob@example.com", "Hi")],
            complete: false,
        },
    ))
    .unwrap();
    bus.publish(make_xmpp_event(
        "xmpp.mam.result.received",
        EventPayload::MamResultReceived {
            query_id: query_id.clone(),
            messages: vec![make_chat_message("arch-2", "bob@example.com", "alice@example.com", "Hey")],
            complete: false,
        },
    ))
    .unwrap();
    bus.publish(make_xmpp_event(
        "xmpp.mam.fin.received",
        EventPayload::MamFinReceived {
            iq_id: "iq-1".to_string(),
            complete: true,
            last_id: Some("arch-2".to_string()),
        },
    ))
    .unwrap();

    let mut result = None;
    for _ in 0..10 {
        if let Some(r) = mam.pump(&mut store, &mut bus).unwrap() {
            result = Some(r);
            break;
        }
    }
    let result = result.expect("sync should finish");
    assert_eq!(result.messages_synced, 2);
    assert!(result.complete);

    assert_eq!(store.message_count(), 2);
    assert_eq!(store.get_cursor("__global__"), Some("arch-2".to_string()));

    let started = sys.recv(&bus).unwrap().expect("SyncStarted");
    assert!(matches!(started.payload, EventPayload::SyncStarted));
    let corr_id = started.correlation_id.clone().expect("correlation id");
    let completed = sys.recv(&bus).unwrap().expect("SyncCompleted");
    assert!(matches!(
        completed.payload,
        EventPayload::SyncCompleted { messages_synced: 2 }
    ));
    assert_eq!(completed.correlation_id, Some(corr_id));
}

#[test]
fn mam_paginated_catch_up_resumes_from_cursor() {
    // Pre-seeded cursor: the first query asks for everything after it;
    // one result page and a complete fin finish the sync with the cursor
    // moved and the message persisted.
    let mut store = Store::new();
    store.set_cursor("__global__", "existing-id-99", 0);
    let mut bus = BroadcastEventBus::new(64);
    let mut mam = MamManager::new();
    let mut sys = bus.subscribe("system.**").unwrap();
    let mut ui = bus.subscribe("ui.**").unwrap();

    mam.sync_since(&store, &mut bus, 0).unwrap();

    let query_event = ui.recv(&bus).unwrap().expect("query event");
    let query_id = match &query_event.payload {
        EventPayload::MamQueryRequested { query_id, after, before, max } => {
            assert_eq!(after.as_deref(), Some("existing-id-99"));
            assert_eq!(*before, None);
            assert_eq!(*max, 50);
            query_id.clone()
        },
        other => panic!("expected MamQueryRequested, got {:?}", other),
    };

    bus.publish(make_xmpp_event(
        "xmpp.mam.result.received",
        EventPayload::MamResultReceived {
            query_id,
            messages: vec![make_chat_message("arch-1", "bob@x", "alice@x", "missed")],
            complete: false,
        },
    ))
    .unwrap();
    bus.publish(make_xmpp_event(
        "xmpp.mam.fin.received",
        EventPayload::MamFinReceived {
            iq_id: "iq-1".to_string(),
            complete: true,
            last_id: Some("arch-1".to_string()),
        },
    ))
    .unwrap();

    let mut result = None;
    for _ in 0..10 {
        if let Some(r) = mam.pump(&mut store, &mut bus).unwrap() {
            result = Some(r);
            break;
        }
    }
    let result = result.expect("sync should finish");
    assert_eq!(result.messages_synced, 1);

    let started = sys.recv(&bus).unwrap().expect("SyncStarted");
    let completed = sys.recv(&bus).unwrap().expect("SyncCompleted");
    assert!(matches!(
        completed.payload,
        EventPayload::SyncCompleted { messages_synced: 1 }
    ));
    assert_eq!(started.correlation_id, completed.correlation_id);
    assert_eq!(store.get_cursor("__global__"), Some("arch-1".to_string()));
    assert_eq!(store.message_count(), 1);
}

#[test]
fn sync_with_existing_state_uses_after() {
    let mut store = Store::new();
    store.set_cursor("__global__", "existing-id-99", 0);
    let mut bus = BroadcastEventBus::new(64);
    let mut mam = MamManager::new();
    let mut ui = bus.subscribe("ui.**").unwrap();

    mam.sync_since(&store, &mut bus, 0).unwrap();
    let query_event = ui.recv(&bus).unwrap().expect("query event");
    match &query_event.payload {
        EventPayload::MamQueryRequested { after, .. } => {
            assert_eq!(after.as_deref(), Some("existing-id-99"));
        },
        other => panic!("expected MamQueryRequested, got {:?}", other),
    }

    bus.publish(make_xmpp_event(
        "xmpp.mam.fin.received",
        EventPayload::MamFinReceived { iq_id: "iq-1".to_string(), complete: true, last_id: None },
    ))
    .unwrap();
    let mut finished = false;
    for _ in 0..10 {
        if mam.pump(&mut store, &mut bus).unwrap().is_some() {
            finished = true;
            break;
        }
    }
    assert!(finished);
}

#[test]
fn mam_sync_triggered_by_own_presence_after_connection() {
    let mut store = Store::new();
    let mut bus = BroadcastEventBus::new(64);
    let mut mam = MamManager::new();
    let mut ui = bus.subscribe("ui.**").unwrap();

    // The raw connection signal does not start a sync: the catch-up
    // waits for our own presence, which itself waits for the roster.
    mam.handle_event(
        &mut store,
        &mut bus,
        &make_xmpp_event(
            "system.connection.established",
            EventPayload::ConnectionEstablished { jid: "alice@example.com".to_string() },
        ),
    );
    assert!(ui.recv(&bus).unwrap().is_none(), "MAM should wait for own presence");

    mam.handle_event(
        &mut store,
        &mut bus,
        &make_xmpp_event(
            "xmpp.presence.own.changed",
            EventPayload::OwnPresenceChanged { show: PresenceShow::Available, status: None },
        ),
    );
    let query_event = ui.recv(&bus).unwrap().expect("query after own presence");
    assert!(matches!(query_event.payload, EventPayload::MamQueryRequested { .. }));
}

#[test]
fn mam_unavailable_presence_does_not_trigger_sync() {
    let mut store = Store::new();
    let mut bus = BroadcastEventBus::new(64);
    let mut mam = MamManager::new();
    let mut ui = bus.subscribe("ui.**").unwrap();

    mam.handle_event(
        &mut store,
        &mut bus,
        &make_xmpp_event(
            "xmpp.presence.own.changed",
            EventPayload::OwnPresenceChanged { show: PresenceShow::Unavailable, status: None },
        ),
    );
    assert!(
        ui.recv(&bus).unwrap().is_none(),
        "unavailable presence should not trigger MAM sync"
    );
}

#[test]
fn scroll_up_fetches_history_before_oldest_known() {
    let mut store = Store::new();
    store.insert_message(&make_chat_message("old-1", "bob@x", "alice@x", "oldest"));
    store.insert_message(&make_chat_message("old-2", "bob@x", "alice@x", "newer"));
    let mut bus = BroadcastEventBus::new(64);
    let mut mam = MamManager::new();
    let mut ui = bus.subscribe("ui.**").unwrap();

    mam.handle_event(
        &mut store,
        &mut bus,
        &make_xmpp_event(
            "ui.scroll",
            EventPayload::ScrollRequested {
                jid: "bob@x".to_string(),
                direction: ScrollDirection::Up,
            },
        ),
    );
    let query_event = ui.recv(&bus).unwrap().expect("history query");
    match &query_event.payload {
        EventPayload::MamQueryRequested { after, before, .. } => {
            assert_eq!(*after, None);
            assert_eq!(before.as_deref(), Some("old-1"));
        },
        other => panic!("expected MamQueryRequested, got {:?}", other),
    }
}

#[test]
fn mam_timeout_or_closed_bus_fails_the_sync_and_keeps_the_cursor() {
    let mut store = Store::new();
    store.set_cursor("__global__", "kept", 0);
    let mut bus = BroadcastEventBus::new(64);
    let mut mam = MamManager::new();
    mam.sync_since(&store, &mut bus, 0).unwrap();

    bus.close();
    let mut failed = false;
    for _ in 0..10 {
        match mam.pump(&mut store, &mut bus) {
            Err(waddle::error::MamError::QueryFailed(_)) => {
                failed = true;
                break;
            },
            Ok(_) => {},
            Err(other) => panic!("unexpected error {:?}", other),
        }
    }
    assert!(failed);
    assert_eq!(store.get_cursor("__global__"), Some("kept".to_string()));
}
