use waddle::bus::BroadcastEventBus;
use waddle::channel::Channel;
use waddle::event::{Event, EventPayload, EventSource, PresenceShow};
use waddle::presence::{bare_jid, PresenceManager};

fn make_event(channel: &str, payload: EventPayload) -> Event {
    Event::new(
        Channel::new(channel.to_string()).unwrap(),
        EventSource::System("test".to_string()),
        payload,
    )
}

fn presence_changed(jid: &str, show: PresenceShow, status: Option<&str>, priority: i8) -> Event {
    make_event(
        "xmpp.presence.changed",
        EventPayload::PresenceChanged {
            jid: jid.to_string(),
            show,
            status: status.map(String::from),
            priority,
        },
    )
}

#[test]
fn bare_jid_strips_resource() {
    assert_eq!(bare_jid("user@example.com/resource"), "user@example.com");
    assert_eq!(bare_jid("user@example.com"), "user@example.com");
    assert_eq!(bare_jid("user@example.com/res/extra"), "user@example.com");
}

#[test]
fn initial_own_presence_is_unavailable() {
    let manager = PresenceManager::new();
    let own = manager.own_presence();
    assert!(matches!(own.show, PresenceShow::Unavailable));
}

#[test]
fn unknown_contact_returns_unavailable() {
    let manager = PresenceManager::new();
    let info = manager.get_presence("unknown@example.com");
    assert!(matches!(info.show, PresenceShow::Unavailable));
    assert_eq!(info.jid, "unknown@example.com");
}

#[test]
fn connection_waits_for_roster_before_initial_presence() {
    // The roster → initial presence ordering: the connection alone emits
    // nothing; the roster promotes our presence and emits exactly one
    // ui.presence.set with show available.
    let mut bus = BroadcastEventBus::new(16);
    let mut manager = PresenceManager::new();
    let mut ui = bus.subscribe("ui.**").unwrap();

    let connected = make_event(
        "system.connection.established",
        EventPayload::ConnectionEstablished { jid: "alice@ex.com".to_string() },
    );
    manager.handle_event(&mut bus, &connected);
    assert!(matches!(manager.own_presence().show, PresenceShow::Unavailable));
    assert_eq!(manager.own_presence().jid, "alice@ex.com");
    assert!(ui.recv(&bus).unwrap().is_none(), "no presence before the roster");

    let roster = make_event(
        "xmpp.roster.received",
        EventPayload::RosterReceived { items: vec![] },
    );
    manager.handle_event(&mut bus, &roster);
    assert!(matches!(manager.own_presence().show, PresenceShow::Available));

    let ev = ui.recv(&bus).unwrap().expect("exactly one presence set");
    assert!(matches!(
        ev.payload,
        EventPayload::PresenceSetRequested { show: PresenceShow::Available, status: None }
    ));
    assert!(ui.recv(&bus).unwrap().is_none(), "exactly one presence set");
}

#[test]
fn connection_lost_clears_contacts_and_sets_unavailable() {
    let mut bus = BroadcastEventBus::new(16);
    let mut manager = PresenceManager::new();

    let connected = make_event(
        "system.connection.established",
        EventPayload::ConnectionEstablished { jid: "user@example.com".to_string() },
    );
    manager.handle_event(&mut bus, &connected);
    manager.handle_event(
        &mut bus,
        &presence_changed("alice@example.com", PresenceShow::Available, None, 0),
    );
    assert!(matches!(
        manager.get_presence("alice@example.com").show,
        PresenceShow::Available
    ));

    let lost = make_event(
        "system.connection.lost",
        EventPayload::ConnectionLost { reason: "network error".to_string(), will_retry: true },
    );
    manager.handle_event(&mut bus, &lost);
    assert!(matches!(manager.own_presence().show, PresenceShow::Unavailable));
    assert!(matches!(
        manager.get_presence("alice@example.com").show,
        PresenceShow::Unavailable
    ));
}

#[test]
fn presence_changed_updates_contact_map() {
    let mut bus = BroadcastEventBus::new(16);
    let mut manager = PresenceManager::new();
    manager.handle_event(
        &mut bus,
        &presence_changed("alice@example.com/desktop", PresenceShow::Away, Some("brb"), 0),
    );
    let info = manager.get_presence("alice@example.com");
    assert!(matches!(info.show, PresenceShow::Away));
    assert_eq!(info.status, Some("brb".to_string()));
    assert_eq!(info.jid, "alice@example.com");
}

#[test]
fn presence_changed_strips_resource() {
    let mut bus = BroadcastEventBus::new(16);
    let mut manager = PresenceManager::new();
    manager.handle_event(
        &mut bus,
        &presence_changed("bob@example.com/mobile", PresenceShow::Dnd, Some("busy"), 0),
    );
    let info = manager.get_presence("bob@example.com");
    assert!(matches!(info.show, PresenceShow::Dnd));
    let info2 = manager.get_presence("bob@example.com/mobile");
    assert!(matches!(info2.show, PresenceShow::Dnd));
}

#[test]
fn full_and_bare_jid_lookups_agree() {
    let mut bus = BroadcastEventBus::new(16);
    let mut manager = PresenceManager::new();
    manager.handle_event(
        &mut bus,
        &presence_changed("carol@x.org/tablet", PresenceShow::Chat, Some("hi"), 3),
    );
    let via_full = manager.get_presence("carol@x.org/any/resource");
    let via_bare = manager.get_presence("carol@x.org");
    assert_eq!(via_full, via_bare);
    // And for a contact that was never seen, too.
    assert_eq!(
        manager.get_presence("ghost@x.org/r"),
        manager.get_presence("ghost@x.org")
    );
}

#[test]
fn own_presence_changed_updates_own_state() {
    let mut bus = BroadcastEventBus::new(16);
    let mut manager = PresenceManager::new();
    let event = Event::new(
        Channel::new("xmpp.presence.own.changed".to_string()).unwrap(),
        EventSource::Xmpp,
        EventPayload::OwnPresenceChanged {
            show: PresenceShow::Dnd,
            status: Some("do not disturb".to_string()),
        },
    );
    manager.handle_event(&mut bus, &event);
    let own = manager.own_presence();
    assert!(matches!(own.show, PresenceShow::Dnd));
    assert_eq!(own.status, Some("do not disturb".to_string()));
}

#[test]
fn set_own_presence_emits_event() {
    let mut bus = BroadcastEventBus::new(16);
    let mut manager = PresenceManager::new();
    let mut sub = bus.subscribe("ui.**").unwrap();
    manager
        .set_own_presence(&mut bus, PresenceShow::Away, Some("lunch"), None)
        .unwrap();
    let received = sub.recv(&bus).unwrap().expect("should receive event");
    assert!(matches!(
        received.payload,
        EventPayload::PresenceSetRequested { show: PresenceShow::Away, .. }
    ));
}

#[test]
fn set_own_presence_updates_local_state() {
    let mut bus = BroadcastEventBus::new(16);
    let mut manager = PresenceManager::new();
    manager
        .set_own_presence(&mut bus, PresenceShow::Xa, Some("vacation"), Some(5))
        .unwrap();
    let own = manager.own_presence();
    assert!(matches!(own.show, PresenceShow::Xa));
    assert_eq!(own.status, Some("vacation".to_string()));
    assert_eq!(own.priority, 5);
}

#[test]
fn multiple_contacts_tracked_independently() {
    let mut bus = BroadcastEventBus::new(16);
    let mut manager = PresenceManager::new();
    manager.handle_event(
        &mut bus,
        &presence_changed("alice@example.com", PresenceShow::Available, None, 0),
    );
    manager.handle_event(
        &mut bus,
        &presence_changed("bob@example.com", PresenceShow::Away, Some("brb"), 0),
    );
    manager.handle_event(
        &mut bus,
        &presence_changed("carol@example.com", PresenceShow::Dnd, Some("busy"), 0),
    );

    let alice = manager.get_presence("alice@example.com");
    assert!(matches!(alice.show, PresenceShow::Available));
    assert_eq!(alice.status, None);
    let bob = manager.get_presence("bob@example.com");
    assert!(matches!(bob.show, PresenceShow::Away));
    assert_eq!(bob.status, Some("brb".to_string()));
    let carol = manager.get_presence("carol@example.com");
    assert!(matches!(carol.show, PresenceShow::Dnd));
    assert_eq!(carol.status, Some("busy".to_string()));
}

#[test]
fn presence_updates_overwrite_previous() {
    let mut bus = BroadcastEventBus::new(16);
    let mut manager = PresenceManager::new();
    manager.handle_event(
        &mut bus,
        &presence_changed("alice@example.com", PresenceShow::Available, None, 0),
    );
    manager.handle_event(
        &mut bus,
        &presence_changed("alice@example.com", PresenceShow::Away, Some("stepped out"), 0),
    );
    let info = manager.get_presence("alice@example.com");
    assert!(matches!(info.show, PresenceShow::Away));
    assert_eq!(info.status, Some("stepped out".to_string()));
}

#[test]
fn unavailable_presence_keeps_entry() {
    let mut bus = BroadcastEventBus::new(16);
    let mut manager = PresenceManager::new();
    manager.handle_event(
        &mut bus,
        &presence_changed("alice@example.com", PresenceShow::Available, None, 0),
    );
    manager.handle_event(
        &mut bus,
        &presence_changed("alice@example.com", PresenceShow::Unavailable, None, 0),
    );
    let info = manager.get_presence("alice@example.com");
    assert!(matches!(info.show, PresenceShow::Unavailable));
}

#[test]
fn presence_carries_priority_per_event() {
    let mut bus = BroadcastEventBus::new(16);
    let mut manager = PresenceManager::new();
    manager.handle_event(
        &mut bus,
        &presence_changed("bob@example.com/desktop", PresenceShow::Available, Some("online"), 5),
    );
    assert_eq!(manager.get_presence("bob@example.com").priority, 5);
    manager.handle_event(
        &mut bus,
        &presence_changed("bob@example.com/mobile", PresenceShow::Away, Some("on phone"), 10),
    );
    let info = manager.get_presence("bob@example.com");
    assert!(matches!(info.show, PresenceShow::Away));
    assert_eq!(info.priority, 10);
}
