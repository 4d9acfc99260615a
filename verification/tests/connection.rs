use waddle::bus::BroadcastEventBus;
use waddle::connection::{ConnectStep, ConnectionConfig, ConnectionManager, ConnectionState};
use waddle::error::ConnectionError;
use waddle::event::EventPayload;

fn config(max_reconnect_attempts: u32) -> ConnectionConfig {
    ConnectionConfig {
        jid: "alice@example.com".to_string(),
        password: "password".to_string(),
        server: Some("xmpp.example.com".to_string()),
        port: Some(5222),
        timeout_seconds: 30,
        max_reconnect_attempts,
    }
}

#[test]
fn reconnect_delay_is_exponential_and_capped_at_sixty_seconds() {
    assert_eq!(ConnectionManager::reconnect_delay(1), 1);
    assert_eq!(ConnectionManager::reconnect_delay(2), 2);
    assert_eq!(ConnectionManager::reconnect_delay(3), 4);
    assert_eq!(ConnectionManager::reconnect_delay(4), 8);
    assert_eq!(ConnectionManager::reconnect_delay(6), 32);
    assert_eq!(ConnectionManager::reconnect_delay(7), 60);
    assert_eq!(ConnectionManager::reconnect_delay(99), 60);
}

#[test]
fn reconnect_delay_sequence_one_through_seven() {
    let expect: [u64; 7] = [1, 2, 4, 8, 16, 32, 60];
    for n in 1..=7u32 {
        assert_eq!(ConnectionManager::reconnect_delay(n), expect[(n - 1) as usize]);
    }
}

#[test]
fn connect_emits_established_and_transitions_to_connected() {
    let mut bus = BroadcastEventBus::new(16);
    let mut established = bus.subscribe("system.connection.established").unwrap();

    let mut manager = ConnectionManager::new(config(0));
    assert!(!manager.start_connect());
    let step = manager.on_attempt_result(&mut bus, Ok(()));
    assert_eq!(step, ConnectStep::Established);
    assert_eq!(manager.state(), ConnectionState::Connected);

    let event = established
        .recv(&bus)
        .unwrap()
        .expect("should receive established event");
    assert_eq!(event.channel.as_str(), "system.connection.established");
    assert!(matches!(
        &event.payload,
        EventPayload::ConnectionEstablished { jid } if jid == "alice@example.com"
    ));

    // A second connect run is over before any attempt.
    assert!(manager.start_connect());
}

#[test]
fn authentication_failure_is_non_retryable() {
    let mut bus = BroadcastEventBus::new(16);
    let mut lost = bus.subscribe("system.connection.lost").unwrap();
    let mut errors = bus.subscribe("system.error.occurred").unwrap();

    let mut manager = ConnectionManager::new(config(10));
    assert!(!manager.start_connect());
    let err = ConnectionError::AuthenticationFailed("invalid credentials".to_string());
    let step = manager.on_attempt_result(&mut bus, Err(err.clone()));
    assert_eq!(step, ConnectStep::GiveUp(err));
    assert_eq!(manager.state(), ConnectionState::Disconnected);

    let lost_event = lost.recv(&bus).unwrap().expect("lost event");
    assert!(matches!(
        lost_event.payload,
        EventPayload::ConnectionLost { will_retry: false, .. }
    ));
    let error_event = errors.recv(&bus).unwrap().expect("error event");
    assert!(matches!(
        error_event.payload,
        EventPayload::ErrorOccurred { recoverable: false, .. }
    ));
}

#[test]
fn retryable_errors_emit_reconnecting_and_retry() {
    let mut bus = BroadcastEventBus::new(16);
    let mut reconnecting = bus.subscribe("system.connection.reconnecting").unwrap();
    let mut lost = bus.subscribe("system.connection.lost").unwrap();
    let mut established = bus.subscribe("system.connection.established").unwrap();

    let mut manager = ConnectionManager::new(config(3));
    assert!(!manager.start_connect());

    let step = manager.on_attempt_result(&mut bus, Err(ConnectionError::Timeout));
    assert_eq!(
        step,
        ConnectStep::RetryAfter { attempt: 1, delay_secs: 1 }
    );
    assert_eq!(manager.state(), ConnectionState::Reconnecting { attempt: 1 });

    let reconnecting_event = reconnecting.recv(&bus).unwrap().expect("reconnecting event");
    assert!(matches!(
        reconnecting_event.payload,
        EventPayload::ConnectionReconnecting { attempt: 1 }
    ));
    let lost_event = lost.recv(&bus).unwrap().expect("lost event");
    assert!(matches!(
        lost_event.payload,
        EventPayload::ConnectionLost { will_retry: true, .. }
    ));

    // The driver sleeps, resumes and retries; the second attempt works.
    manager.resume_connecting();
    assert_eq!(manager.state(), ConnectionState::Connecting);
    let step = manager.on_attempt_result(&mut bus, Ok(()));
    assert_eq!(step, ConnectStep::Established);
    assert_eq!(manager.state(), ConnectionState::Connected);
    let established_event = established.recv(&bus).unwrap().expect("established event");
    assert!(matches!(
        &established_event.payload,
        EventPayload::ConnectionEstablished { jid } if jid == "alice@example.com"
    ));
}

#[test]
fn disconnect_closes_transport_and_emits_lost_without_retry() {
    let mut bus = BroadcastEventBus::new(16);
    let mut lost = bus.subscribe("system.connection.lost").unwrap();

    let mut manager = ConnectionManager::new(config(0));
    assert!(!manager.start_connect());
    manager.on_attempt_result(&mut bus, Ok(()));
    let _ = lost.recv(&bus); // nothing on this channel yet

    manager.disconnect(&mut bus, None).expect("disconnect should succeed");
    assert_eq!(manager.state(), ConnectionState::Disconnected);

    let first_lost_event = lost.recv(&bus).unwrap().expect("lost event");
    assert!(matches!(
        &first_lost_event.payload,
        EventPayload::ConnectionLost { reason, will_retry: false }
            if reason == "user requested disconnect"
    ));

    // Disconnecting while already disconnected emits nothing more.
    manager.disconnect(&mut bus, None).unwrap();
    assert!(lost.recv(&bus).unwrap().is_none());
}

#[test]
fn failing_transport_close_still_disconnects_and_surfaces_the_error() {
    let mut bus = BroadcastEventBus::new(16);
    let mut errors = bus.subscribe("system.error.occurred").unwrap();
    let mut manager = ConnectionManager::new(config(0));
    assert!(!manager.start_connect());
    manager.on_attempt_result(&mut bus, Ok(()));

    let close_err = ConnectionError::Network("reset".to_string());
    let r = manager.disconnect(&mut bus, Some(close_err.clone()));
    assert_eq!(r, Err(close_err));
    assert_eq!(manager.state(), ConnectionState::Disconnected);
    let error_event = errors.recv(&bus).unwrap().expect("error event");
    assert!(matches!(
        error_event.payload,
        EventPayload::ErrorOccurred { recoverable: true, .. }
    ));
}

#[test]
fn retryability_classification() {
    assert!(ConnectionError::Timeout.is_retryable());
    assert!(ConnectionError::Network("x".to_string()).is_retryable());
    assert!(ConnectionError::ServerDisconnected("bye".to_string()).is_retryable());
    assert!(!ConnectionError::AuthenticationFailed("x".to_string()).is_retryable());
    assert!(!ConnectionError::Protocol("x".to_string()).is_retryable());
    assert!(!ConnectionError::InvalidConfig("x".to_string()).is_retryable());
}

#[test]
fn attempts_exhaust_when_budget_is_finite() {
    let mut bus = BroadcastEventBus::new(16);
    let mut manager = ConnectionManager::new(config(1));
    assert!(!manager.start_connect());
    // First failure: attempt 1 <= 1 still allowed.
    let step = manager.on_attempt_result(&mut bus, Err(ConnectionError::Timeout));
    assert!(matches!(step, ConnectStep::RetryAfter { attempt: 1, .. }));
    manager.resume_connecting();
    // Second failure: attempt 2 > 1, gives up.
    let step = manager.on_attempt_result(&mut bus, Err(ConnectionError::Timeout));
    assert_eq!(step, ConnectStep::GiveUp(ConnectionError::Timeout));
    assert_eq!(manager.state(), ConnectionState::Disconnected);
}
