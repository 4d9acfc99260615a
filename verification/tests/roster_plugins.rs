use waddle::bus::BroadcastEventBus;
use waddle::channel::Channel;
use waddle::error::{KvError, PluginError, RegistryError};
use waddle::event::{Event, EventPayload, EventSource, PresenceShow, RosterItem, Subscription};
use waddle::kv::{KvQuota, KvUsage, PluginKvStore};
use waddle::presence::PresenceManager;
use waddle::registry::{PluginRegistry, RegistryConfig};
use waddle::roster::RosterManager;
use waddle::runtime::{PluginRuntime, PluginRuntimeConfig};
use waddle::store::Store;

fn make_event(channel: &str, payload: EventPayload) -> Event {
    Event::new(
        Channel::new(channel.to_string()).unwrap(),
        EventSource::System("test".to_string()),
        payload,
    )
}

fn item(jid: &str, name: Option<&str>, subscription: Subscription, groups: &[&str]) -> RosterItem {
    RosterItem {
        jid: jid.to_string(),
        name: name.map(String::from),
        subscription,
        groups: groups.iter().map(|g| g.to_string()).collect(),
    }
}

#[test]
fn connection_established_triggers_roster_fetch_and_presence_wait() {
    let mut store = Store::new();
    let mut bus = BroadcastEventBus::new(32);
    let roster = RosterManager::new();
    let mut presence = PresenceManager::new();
    let mut ui = bus.subscribe("ui.**").unwrap();

    let connected = make_event(
        "system.connection.established",
        EventPayload::ConnectionEstablished { jid: "alice@example.com".to_string() },
    );
    roster.handle_event(&mut store, &mut bus, &connected);
    presence.handle_event(&mut bus, &connected);

    let event = ui.recv(&bus).unwrap().expect("roster fetch request");
    assert!(matches!(event.payload, EventPayload::RosterFetchRequested));

    let own = presence.own_presence();
    assert!(matches!(own.show, PresenceShow::Unavailable));
    assert_eq!(own.jid, "alice@example.com");
}

#[test]
fn roster_sync_flow_connection_to_initial_presence() {
    let mut store = Store::new();
    let mut bus = BroadcastEventBus::new(32);
    let roster = RosterManager::new();
    let mut presence = PresenceManager::new();
    let mut ui = bus.subscribe("ui.**").unwrap();

    let connected = make_event(
        "system.connection.established",
        EventPayload::ConnectionEstablished { jid: "alice@example.com".to_string() },
    );
    roster.handle_event(&mut store, &mut bus, &connected);
    presence.handle_event(&mut bus, &connected);
    let _fetch = ui.recv(&bus).unwrap().expect("fetch request");

    let items = vec![
        item("bob@example.com", Some("Bob"), Subscription::Both, &["Friends"]),
        item("carol@example.com", None, Subscription::To, &[]),
    ];
    let roster_received =
        make_event("xmpp.roster.received", EventPayload::RosterReceived { items });
    roster.handle_event(&mut store, &mut bus, &roster_received);
    presence.handle_event(&mut bus, &roster_received);

    let stored = roster.get_roster(&store);
    assert_eq!(stored.len(), 2);
    assert_eq!(stored[0].jid, "bob@example.com");
    assert_eq!(stored[0].name, Some("Bob".to_string()));
    assert!(matches!(stored[0].subscription, Subscription::Both));
    assert_eq!(stored[0].groups, vec!["Friends"]);
    assert_eq!(stored[1].jid, "carol@example.com");

    let own = presence.own_presence();
    assert!(matches!(own.show, PresenceShow::Available));
    let event = ui.recv(&bus).unwrap().expect("initial presence");
    assert!(matches!(
        event.payload,
        EventPayload::PresenceSetRequested { show: PresenceShow::Available, status: None }
    ));
}

#[test]
fn roster_push_updates_persist_incrementally() {
    let mut store = Store::new();
    let mut bus = BroadcastEventBus::new(32);
    let roster = RosterManager::new();

    roster.handle_event(
        &mut store,
        &mut bus,
        &make_event(
            "xmpp.roster.received",
            EventPayload::RosterReceived {
                items: vec![item("bob@example.com", Some("Bob"), Subscription::Both, &[])],
            },
        ),
    );

    roster.handle_event(
        &mut store,
        &mut bus,
        &make_event(
            "xmpp.roster.updated",
            EventPayload::RosterUpdated {
                item: item("dave@example.com", Some("Dave"), Subscription::NotSubscribed, &["Work"]),
            },
        ),
    );
    assert_eq!(roster.get_roster(&store).len(), 2);

    roster.handle_event(
        &mut store,
        &mut bus,
        &make_event(
            "xmpp.roster.removed",
            EventPayload::RosterRemoved { jid: "bob@example.com".to_string() },
        ),
    );
    let stored = roster.get_roster(&store);
    assert_eq!(stored.len(), 1);
    assert_eq!(stored[0].jid, "dave@example.com");
}

#[test]
fn roster_update_with_remove_subscription_deletes_the_row() {
    let mut store = Store::new();
    let mut bus = BroadcastEventBus::new(32);
    let roster = RosterManager::new();
    roster.handle_event(
        &mut store,
        &mut bus,
        &make_event(
            "xmpp.roster.received",
            EventPayload::RosterReceived {
                items: vec![item("bob@example.com", None, Subscription::Both, &[])],
            },
        ),
    );
    roster.handle_event(
        &mut store,
        &mut bus,
        &make_event(
            "xmpp.roster.updated",
            EventPayload::RosterUpdated {
                item: item("bob@example.com", None, Subscription::Remove, &[]),
            },
        ),
    );
    assert!(roster.get_roster(&store).is_empty());
}

#[test]
fn add_contact_persists_locally_and_asks_the_server() {
    let mut store = Store::new();
    let mut bus = BroadcastEventBus::new(32);
    let roster = RosterManager::new();
    let mut ui = bus.subscribe("ui.roster.add").unwrap();

    let added = roster.add_contact(
        &mut store,
        &mut bus,
        "dave@example.com",
        Some("Dave"),
        &vec!["Work".to_string()],
    );
    assert!(matches!(added.subscription, Subscription::NotSubscribed));

    let stored = roster.get_roster(&store);
    assert_eq!(stored.len(), 1);
    assert_eq!(stored[0].jid, "dave@example.com");
    assert!(matches!(stored[0].subscription, Subscription::NotSubscribed));

    let event = ui.recv(&bus).unwrap().expect("roster add request");
    assert!(matches!(
        &event.payload,
        EventPayload::RosterAddRequested { jid, name, .. }
            if jid == "dave@example.com" && name.as_deref() == Some("Dave")
    ));
}

#[test]
fn kv_store_operations_are_not_implemented() {
    let store = PluginKvStore::new("p1".to_string(), KvQuota::default());
    assert_eq!(store.plugin_id(), "p1");
    assert_eq!(store.quota().max_keys, 10_000);
    assert_eq!(store.quota().max_value_bytes, 1_048_576);
    assert_eq!(store.get("k"), Err(KvError::NotImplemented));
    assert_eq!(store.set("k", &vec![1u8]), Err(KvError::NotImplemented));
    assert_eq!(store.delete("k"), Err(KvError::NotImplemented));
    assert_eq!(store.list_keys(""), Err(KvError::NotImplemented));
    assert_eq!(store.usage(), Err(KvError::NotImplemented));
    assert_eq!(store.clear_all(), Err(KvError::NotImplemented));
    assert_eq!(KvUsage::default(), KvUsage { key_count: 0, total_bytes: 0 });
}

#[test]
fn registry_defaults_and_stubs() {
    let config = RegistryConfig::default();
    assert_eq!(config.default_registry, "ghcr.io/waddle-social");
    assert!(config.check_updates_on_startup);
    assert_eq!(config.signature_policy, "warn");

    let registry = PluginRegistry::new(config, "/tmp/plugins".to_string()).unwrap();
    assert_eq!(registry.data_dir(), "/tmp/plugins");
    assert!(registry.list_installed().unwrap().is_empty());
    assert!(matches!(registry.install("ref"), Err(RegistryError::NotImplemented)));
    assert!(matches!(registry.uninstall("p"), Err(RegistryError::NotImplemented)));
    assert!(matches!(registry.update("p"), Err(RegistryError::NotImplemented)));
    assert!(matches!(registry.search("r", "q"), Err(RegistryError::NotImplemented)));
    assert!(matches!(registry.get_plugin_files("p"), Err(RegistryError::NotImplemented)));
    assert!(matches!(registry.list_versions("r"), Err(RegistryError::NotImplemented)));
}

#[test]
fn runtime_defaults_and_unload() {
    let config = PluginRuntimeConfig::default();
    assert_eq!(config.fuel_per_invocation, 1_000_000);
    assert_eq!(config.fuel_per_render, 5_000_000);
    assert_eq!(config.epoch_timeout_ms, 5_000);
    assert_eq!(config.max_memory_bytes, 16_777_216);

    let mut runtime = PluginRuntime::new(config);
    assert!(runtime.list_plugins().is_empty());
    assert!(runtime.get_plugin("nope").is_none());
    match runtime.unload_plugin("nope") {
        Err(PluginError::NotFound { id }) => assert_eq!(id, "nope"),
        other => panic!("expected NotFound, got {:?}", other),
    }
    assert!(matches!(
        runtime.invoke_hook(waddle::runtime::PluginHook::GuiGetComponentInfo),
        Err(PluginError::NotImplemented)
    ));
}
