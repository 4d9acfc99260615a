use waddle::bus::BroadcastEventBus;
use waddle::channel::Channel;
use waddle::event::{
    ChatMessage, Event, EventPayload, EventSource, MessageType, PresenceShow, RosterItem,
    Subscription,
};
use waddle::mam::MamManager;
use waddle::message::MessageManager;
use waddle::presence::PresenceManager;
use waddle::roster::RosterManager;
use waddle::store::Store;

fn make_event(channel: &str, payload: EventPayload) -> Event {
    Event::new(
        Channel::new(channel.to_string()).unwrap(),
        EventSource::System("test".to_string()),
        payload,
    )
}

fn make_xmpp_event(channel: &str, payload: EventPayload) -> Event {
    Event::new(Channel::new(channel.to_string()).unwrap(), EventSource::Xmpp, payload)
}

#[test]
fn full_startup_lifecycle_connection_to_mam_sync() {
    // Connection → roster fetch → roster → initial presence → own
    // presence → archive catch-up, all over the bus, one store.
    let mut store = Store::new();
    let mut bus = BroadcastEventBus::new(64);
    let roster = RosterManager::new();
    let mut presence = PresenceManager::new();
    let mut messaging = MessageManager::new();
    let mut mam = MamManager::new();

    let mut ui = bus.subscribe("ui.**").unwrap();
    let mut sys = bus.subscribe("system.**").unwrap();

    // 1. The connection is established.
    let connected = make_event(
        "system.connection.established",
        EventPayload::ConnectionEstablished { jid: "alice@example.com".to_string() },
    );
    roster.handle_event(&mut store, &mut bus, &connected);
    presence.handle_event(&mut bus, &connected);
    messaging.handle_event(&mut store, &mut bus, &connected);
    mam.handle_event(&mut store, &mut bus, &connected);

    let fetch = ui.recv(&bus).unwrap().expect("roster fetch");
    assert!(matches!(fetch.payload, EventPayload::RosterFetchRequested));
    let coming = sys.recv(&bus).unwrap().expect("coming online");
    assert!(matches!(coming.payload, EventPayload::ComingOnline));
    assert!(ui.recv(&bus).unwrap().is_none(), "no MAM query before own presence");

    // 2. The server sends the roster.
    let roster_event = make_xmpp_event(
        "xmpp.roster.received",
        EventPayload::RosterReceived {
            items: vec![RosterItem {
                jid: "bob@example.com".to_string(),
                name: Some("Bob".to_string()),
                subscription: Subscription::Both,
                groups: vec![],
            }],
        },
    );
    roster.handle_event(&mut store, &mut bus, &roster_event);
    presence.handle_event(&mut bus, &roster_event);
    assert_eq!(roster.get_roster(&store).len(), 1);

    // 3. The roster promotes our presence.
    let pres_event = ui.recv(&bus).unwrap().expect("initial presence");
    assert!(matches!(
        pres_event.payload,
        EventPayload::PresenceSetRequested { show: PresenceShow::Available, .. }
    ));

    // 4. Our own presence triggers the archive catch-up.
    let own_presence = make_xmpp_event(
        "xmpp.presence.own.changed",
        EventPayload::OwnPresenceChanged { show: PresenceShow::Available, status: None },
    );
    presence.handle_event(&mut bus, &own_presence);
    mam.handle_event(&mut store, &mut bus, &own_presence);

    // 5. The catch-up asks for its first page.
    let query_event = ui.recv(&bus).unwrap().expect("MAM query").clone();
    let query_id = match &query_event.payload {
        EventPayload::MamQueryRequested { query_id, .. } => query_id.clone(),
        other => panic!("expected MamQueryRequested, got {:?}", other),
    };

    // The archive is empty.
    bus.publish(make_xmpp_event(
        "xmpp.mam.fin.received",
        EventPayload::MamFinReceived { iq_id: query_id, complete: true, last_id: None },
    ))
    .unwrap();
    let mut result = None;
    for _ in 0..10 {
        if let Some(r) = mam.pump(&mut store, &mut bus).unwrap() {
            result = Some(r);
            break;
        }
    }
    let result = result.expect("sync finishes");
    assert_eq!(result.messages_synced, 0);

    // 6. The sync markers share a correlation id.
    let started = sys.recv(&bus).unwrap().expect("SyncStarted");
    assert!(matches!(started.payload, EventPayload::SyncStarted));
    let started_corr = started.correlation_id.clone();
    let completed = sys.recv(&bus).unwrap().expect("SyncCompleted");
    assert!(matches!(
        completed.payload,
        EventPayload::SyncCompleted { messages_synced: 0 }
    ));
    assert_eq!(started_corr, completed.correlation_id);
}

#[test]
fn message_delivery_receipt_flow() {
    // Send while offline (enqueues), come online (drains), server echo
    // (sent), delivery receipt (confirmed).
    let mut store = Store::new();
    let mut bus = BroadcastEventBus::new(32);
    let mut messaging = MessageManager::new();

    let sent = messaging.send_message(&mut store, &mut bus, "bob@example.com", "queued message");

    messaging.handle_event(
        &mut store,
        &mut bus,
        &make_event(
            "system.connection.established",
            EventPayload::ConnectionEstablished { jid: "alice@example.com".to_string() },
        ),
    );

    messaging.handle_event(
        &mut store,
        &mut bus,
        &make_xmpp_event(
            "xmpp.message.sent",
            EventPayload::MessageSent {
                message: ChatMessage {
                    id: sent.id.clone(),
                    from: "alice@example.com".to_string(),
                    to: "bob@example.com".to_string(),
                    body: "queued message".to_string(),
                    timestamp: 0,
                    message_type: MessageType::Chat,
                    thread: None,
                },
            },
        ),
    );

    messaging.handle_event(
        &mut store,
        &mut bus,
        &make_xmpp_event(
            "xmpp.message.delivered",
            EventPayload::MessageDelivered { id: sent.id.clone(), to: "bob@example.com".to_string() },
        ),
    );

    assert_eq!(store.queue_get(0).status, waddle::store::QueueStatus::Confirmed);
}
