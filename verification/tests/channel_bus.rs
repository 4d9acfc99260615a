use waddle::bus::BroadcastEventBus;
use waddle::channel::Channel;
use waddle::error::EventBusError;
use waddle::event::{Event, EventPayload, EventSource};

fn chan(name: &str) -> Channel {
    Channel::new(name.to_string()).unwrap()
}

fn sys_event(name: &str, payload: EventPayload) -> Event {
    Event::new(chan(name), EventSource::System("test".to_string()), payload)
}

#[test]
fn test_channel_validation() {
    assert!(Channel::is_valid("system.startup.complete"));
    assert!(Channel::is_valid("xmpp.message.received"));
    assert!(Channel::is_valid("ui.theme.changed"));
    assert!(Channel::is_valid("plugin.test.event"));

    assert!(!Channel::is_valid("invalid.domain.event"));
    assert!(!Channel::is_valid("system..double.dot"));
    assert!(!Channel::is_valid(".starts.with.dot"));
    assert!(!Channel::is_valid("ends.with.dot."));
    assert!(!Channel::is_valid("UpperCase"));
    assert!(!Channel::is_valid("with-hyphen"));
    assert!(!Channel::is_valid(""));
}

#[test]
fn test_channel_domain() {
    let c = Channel::new("xmpp.message.received".to_string()).unwrap();
    assert_eq!(c.domain(), "xmpp");
}

#[test]
fn channel_new_accepts_exactly_the_valid_names() {
    assert!(Channel::new("system.a".to_string()).is_ok());
    assert_eq!(
        Channel::new("system.a".to_string()).unwrap().as_str(),
        "system.a"
    );
    match Channel::new("nope.a".to_string()) {
        Err(EventBusError::InvalidChannel(name)) => assert_eq!(name, "nope.a"),
        other => panic!("expected InvalidChannel, got {:?}", other),
    }
}

#[test]
fn publish_routes_by_domain_and_subscribers_filter_by_glob() {
    let mut bus = BroadcastEventBus::new(16);
    let mut sys = bus.subscribe("system.connection.*").unwrap();
    let mut all_ui = bus.subscribe("ui.**").unwrap();

    bus.publish(sys_event(
        "system.connection.lost",
        EventPayload::ConnectionLost {
            reason: "x".to_string(),
            will_retry: false,
        },
    ))
    .unwrap();
    bus.publish(sys_event("system.coming.online", EventPayload::ComingOnline))
        .unwrap();
    bus.publish(sys_event("ui.roster.fetch", EventPayload::RosterFetchRequested))
        .unwrap();

    // The glob keeps only the matching channel; the non-matching system
    // event is skipped silently.
    let got = sys.recv(&bus).unwrap().expect("should get the lost event");
    assert_eq!(got.channel.as_str(), "system.connection.lost");
    assert!(sys.recv(&bus).unwrap().is_none());

    // The ui subscriber is not attached to the system buffer at all.
    let got = all_ui.recv(&bus).unwrap().expect("should get the ui event");
    assert_eq!(got.channel.as_str(), "ui.roster.fetch");
    assert!(all_ui.recv(&bus).unwrap().is_none());
}

#[test]
fn subscribe_rejects_unknown_literal_domain() {
    let bus = BroadcastEventBus::new(4);
    match bus.subscribe("nosuch.domain").err() {
        Some(EventBusError::InvalidPattern(p)) => assert_eq!(p, "nosuch.domain"),
        other => panic!("expected InvalidPattern, got {:?}", other),
    }
}

#[test]
fn subscribe_rejects_bad_globs_and_empty_first_segment() {
    let bus = BroadcastEventBus::new(4);
    assert!(matches!(
        bus.subscribe("ui.[").err(),
        Some(EventBusError::InvalidPattern(_))
    ));
    assert!(matches!(
        bus.subscribe(".leading.dot").err(),
        Some(EventBusError::InvalidPattern(_))
    ));
}

#[test]
fn same_domain_events_are_seen_in_publish_order() {
    let mut bus = BroadcastEventBus::new(16);
    let mut sub = bus.subscribe("system.**").unwrap();
    bus.publish(sys_event("system.sync.started", EventPayload::SyncStarted))
        .unwrap();
    bus.publish(sys_event(
        "system.sync.completed",
        EventPayload::SyncCompleted { messages_synced: 0 },
    ))
    .unwrap();
    let a = sub.recv(&bus).unwrap().expect("first");
    assert_eq!(a.channel.as_str(), "system.sync.started");
    let b = sub.recv(&bus).unwrap().expect("second");
    assert_eq!(b.channel.as_str(), "system.sync.completed");
}

#[test]
fn glob_with_meta_in_first_segment_attaches_to_all_domains() {
    let mut bus = BroadcastEventBus::new(16);
    let mut sub = bus.subscribe("{system,xmpp}.**").unwrap();
    bus.publish(sys_event("xmpp.roster.received", EventPayload::RosterReceived { items: vec![] }))
        .unwrap();
    bus.publish(sys_event("system.coming.online", EventPayload::ComingOnline))
        .unwrap();
    // Both domains are seen; polling order is system first.
    let first = sub.recv(&bus).unwrap().expect("one of them");
    assert_eq!(first.channel.domain(), "system");
    let second = sub.recv(&bus).unwrap().expect("the other");
    assert_eq!(second.channel.domain(), "xmpp");
    assert!(sub.recv(&bus).unwrap().is_none());
}

#[test]
fn falling_behind_reports_lag_and_rearms_at_oldest_retained() {
    let mut bus = BroadcastEventBus::new(2);
    let mut sub = bus.subscribe("system.**").unwrap();
    for _ in 0..5 {
        bus.publish(sys_event("system.coming.online", EventPayload::ComingOnline))
            .unwrap();
    }
    match sub.recv(&bus) {
        Err(EventBusError::Lagged(n)) => assert_eq!(n, 3),
        other => panic!("expected Lagged, got {:?}", other),
    }
    // Re-armed at the oldest retained event: the two retained events are
    // still deliverable.
    assert!(sub.recv(&bus).unwrap().is_some());
    assert!(sub.recv(&bus).unwrap().is_some());
    assert!(sub.recv(&bus).unwrap().is_none());
}

#[test]
fn closed_bus_reports_channel_closed_after_draining() {
    let mut bus = BroadcastEventBus::new(8);
    let mut sub = bus.subscribe("system.**").unwrap();
    bus.publish(sys_event("system.coming.online", EventPayload::ComingOnline))
        .unwrap();
    bus.close();
    // The buffered event is still delivered, then the closure shows.
    assert!(sub.recv(&bus).unwrap().is_some());
    assert!(matches!(sub.recv(&bus), Err(EventBusError::ChannelClosed)));
}

#[test]
fn has_glob_meta_recognizes_metacharacters() {
    assert!(waddle::bus::has_glob_meta("{system,xmpp}"));
    assert!(waddle::bus::has_glob_meta("a*b"));
    assert!(waddle::bus::has_glob_meta("q?"));
    assert!(!waddle::bus::has_glob_meta("system"));
    assert!(!waddle::bus::has_glob_meta(""));
}

#[test]
fn zero_capacity_is_clamped_to_one() {
    let mut bus = BroadcastEventBus::new(0);
    let mut sub = bus.subscribe("system.**").unwrap();
    bus.publish(sys_event("system.coming.online", EventPayload::ComingOnline))
        .unwrap();
    bus.publish(sys_event("system.going.offline", EventPayload::GoingOffline))
        .unwrap();
    // Each buffer retains exactly one event: the first was evicted.
    match sub.recv(&bus) {
        Err(EventBusError::Lagged(n)) => assert_eq!(n, 1),
        other => panic!("expected Lagged, got {:?}", other),
    }
    let got = sub.recv(&bus).unwrap().expect("the retained event");
    assert!(matches!(got.payload, EventPayload::GoingOffline));
}

#[test]
fn oversized_patterns_are_refused_before_compilation() {
    let bus = BroadcastEventBus::new(4);
    let huge = format!("system.{}", "a".repeat(waddle::glob::GLOB_PATTERN_MAX));
    assert!(matches!(
        bus.subscribe(&huge).err(),
        Some(EventBusError::InvalidPattern(_))
    ));
}
