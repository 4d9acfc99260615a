//! The transport lifecycle state machine: connect, exponential-backoff
//! reconnection with retryability classification, and disconnect. The
//! transport itself is outside the core; a driver performs the attempts
//! and hands each outcome to `on_attempt_result`, sleeping for the
//! returned delay before the next try.

use vstd::prelude::*;

use crate::bus::{published_any, published_three, published_two, BroadcastEventBus};
use crate::channel::Channel;
use crate::error::{message_of, retryable, ConnectionError};
use crate::event::{Event, EventPayload, EventSource};

verus! {

/// Transport connection settings.
#[derive(Debug, Clone, PartialEq, Eq)]
pub struct ConnectionConfig {
    pub jid: String,
    pub password: String,
    pub server: Option<String>,
    pub port: Option<u16>,
    pub timeout_seconds: u64,
    /// 0 means: retry forever.
    pub max_reconnect_attempts: u32,
}

#[derive(Debug, Clone, Copy, PartialEq, Eq, Structural)]
pub enum ConnectionState {
    Disconnected,
    Connecting,
    Connected,
    Reconnecting { attempt: u32 },
}

/// What the driver must do after one connection attempt.
#[derive(Debug, Clone, PartialEq, Eq)]
pub enum ConnectStep {
    /// The attempt succeeded; the manager is connected.
    Established,
    /// The error is not retried; it surfaces to the caller.
    GiveUp(ConnectionError),
    /// Sleep `delay_secs`, then attempt again.
    RetryAfter { attempt: u32, delay_secs: u64 },
}

/// Powers of two.
pub open spec fn pow2(k: nat) -> nat
    decreases k,
{
    if k == 0 {
        1
    } else {
        2 * pow2((k - 1) as nat)
    }
}

/// The reconnection backoff: `min(60, max(1, 2^(attempt-1)))` seconds.
pub open spec fn reconnect_delay_spec(attempt: nat) -> int {
    if attempt == 0 {
        1
    } else {
        vstd::math::min(60, vstd::math::max(1, pow2((attempt - 1) as nat) as int))
    }
}

proof fn lemma_pow2_small()
    ensures
        pow2(0) == 1,
        pow2(1) == 2,
        pow2(2) == 4,
        pow2(3) == 8,
        pow2(4) == 16,
        pow2(5) == 32,
        pow2(6) == 64,
{
    assert(pow2(0) == 1);
    assert(pow2(1) == 2 * pow2(0));
    assert(pow2(2) == 2 * pow2(1));
    assert(pow2(3) == 2 * pow2(2));
    assert(pow2(4) == 2 * pow2(3));
    assert(pow2(5) == 2 * pow2(4));
    assert(pow2(6) == 2 * pow2(5));
}

proof fn lemma_pow2_ge_64(k: nat)
    requires
        k >= 6,
    ensures
        pow2(k) >= 64,
    decreases k,
{
    if k == 6 {
        lemma_pow2_small();
    } else {
        lemma_pow2_ge_64((k - 1) as nat);
        assert(pow2(k) == 2 * pow2((k - 1) as nat));
    }
}

/// The next attempt number, saturating.
pub open spec fn next_attempt_spec(attempt: u32) -> u32 {
    if attempt == u32::MAX {
        u32::MAX
    } else {
        (attempt + 1) as u32
    }
}

/// The events a failed attempt emits.
pub open spec fn lost_event(e: Event, err: ConnectionError, will_retry: bool) -> bool {
    &&& e.channel@ == "system.connection.lost"@
    &&& e.payload matches EventPayload::ConnectionLost { reason, will_retry: wr } && reason@
        == message_of(err) && wr == will_retry
}

pub open spec fn error_event(e: Event, err: ConnectionError, recoverable: bool) -> bool {
    &&& e.channel@ == "system.error.occurred"@
    &&& e.payload matches EventPayload::ErrorOccurred { component, message, recoverable: rc }
        && component@ == "connection"@ && message@ == message_of(err) && rc == recoverable
}

pub open spec fn reconnecting_event(e: Event, attempt: u32) -> bool {
    &&& e.channel@ == "system.connection.reconnecting"@
    &&& e.payload matches EventPayload::ConnectionReconnecting { attempt: a } && a == attempt
}

pub open spec fn established_event(e: Event, jid: Seq<char>) -> bool {
    &&& e.channel@ == "system.connection.established"@
    &&& e.payload matches EventPayload::ConnectionEstablished { jid: j } && j@ == jid
}

/// Transport lifecycle and retry state.
pub struct ConnectionManager {
    state: ConnectionState,
    config: ConnectionConfig,
    attempt: u32,
}

impl ConnectionManager {
    pub closed spec fn state_spec(self) -> ConnectionState {
        self.state
    }

    pub closed spec fn attempt_spec(self) -> u32 {
        self.attempt
    }

    pub closed spec fn jid_spec(self) -> Seq<char> {
        self.config.jid@
    }

    pub closed spec fn max_attempts_spec(self) -> u32 {
        self.config.max_reconnect_attempts
    }

    pub fn new(config: ConnectionConfig) -> (r: ConnectionManager)
        ensures
            r.state_spec() == ConnectionState::Disconnected,
            r.attempt_spec() == 0,
            r.jid_spec() == config.jid@,
            r.max_attempts_spec() == config.max_reconnect_attempts,
    {
        ConnectionManager { state: ConnectionState::Disconnected, config, attempt: 0 }
    }

    /// The current connection state.
    pub fn state(&self) -> (r: ConnectionState)
        ensures
            r == self.state_spec(),
    {
        self.state
    }

    /// Whether attempt number `attempt` is still allowed; 0 configured
    /// attempts means unlimited retries.
    pub fn should_retry(&self, attempt: u32) -> (r: bool)
        ensures
            r == (self.max_attempts_spec() == 0 || attempt <= self.max_attempts_spec()),
    {
        self.config.max_reconnect_attempts == 0 || attempt <= self.config.max_reconnect_attempts
    }

    /// The reconnection backoff: exponential with a one-second floor and
    /// a sixty-second cap.
    pub fn reconnect_delay(attempt: u32) -> (r: u64)
        ensures
            r as int == reconnect_delay_spec(attempt as nat),
    {
        proof {
            lemma_pow2_small();
            if attempt >= 7 {
                lemma_pow2_ge_64((attempt - 1) as nat);
            }
        }
        if attempt <= 1 {
            1
        } else if attempt == 2 {
            2
        } else if attempt == 3 {
            4
        } else if attempt == 4 {
            8
        } else if attempt == 5 {
            16
        } else if attempt == 6 {
            32
        } else {
            60
        }
    }

    /// Start a `connect` run. Returns true when already connected (the
    /// run is over before any attempt); otherwise the manager moves to
    /// `Connecting` with the attempt counter reset.
    pub fn start_connect(&mut self) -> (already: bool)
        ensures
            already == (old(self).state_spec() == ConnectionState::Connected),
            already ==> *final(self) == *old(self),
            !already ==> final(self).state_spec() == ConnectionState::Connecting
                && final(self).attempt_spec() == 0,
            final(self).jid_spec() == old(self).jid_spec(),
            final(self).max_attempts_spec() == old(self).max_attempts_spec(),
    {
        if matches!(self.state, ConnectionState::Connected) {
            return true;
        }
        self.state = ConnectionState::Connecting;
        self.attempt = 0;
        false
    }

    /// Consume the outcome of one transport attempt.
    ///
    /// Success: move to `Connected` and announce the connection. Failure:
    /// announce the loss and the error, with `will_retry` = the error is
    /// retryable and the attempt budget is not exhausted; then either
    /// give up (`Disconnected`) or move to `Reconnecting` and tell the
    /// driver how long to back off.
    pub fn on_attempt_result(
        &mut self,
        bus: &mut BroadcastEventBus,
        outcome: Result<(), ConnectionError>,
    ) -> (r: ConnectStep)
        requires
            old(bus).inv(),
            old(bus).room(3),
        ensures
            final(bus).inv(),
            final(self).jid_spec() == old(self).jid_spec(),
            final(self).max_attempts_spec() == old(self).max_attempts_spec(),
            outcome is Ok ==> {
                &&& r == ConnectStep::Established
                &&& final(self).state_spec() == ConnectionState::Connected
                &&& exists|e: Event|
                    #[trigger] published_any(*old(bus), *final(bus), e) && established_event(
                        e,
                        old(self).jid_spec(),
                    )
            },
            outcome matches Err(err) ==> {
                let next = next_attempt_spec(old(self).attempt_spec());
                let will_retry = retryable(err) && (old(self).max_attempts_spec() == 0 || next
                    <= old(self).max_attempts_spec());
                &&& !will_retry ==> {
                    &&& final(self).state_spec() == ConnectionState::Disconnected
                    &&& r == ConnectStep::GiveUp(err)
                    &&& exists|e1: Event, e2: Event|
                        #[trigger] published_two(*old(bus), *final(bus), e1, e2) && lost_event(
                            e1,
                            err,
                            false,
                        ) && error_event(e2, err, false)
                }
                &&& will_retry ==> {
                    &&& final(self).state_spec() == (ConnectionState::Reconnecting {
                        attempt: next,
                    })
                    &&& final(self).attempt_spec() == next
                    &&& r == (ConnectStep::RetryAfter {
                        attempt: next,
                        delay_secs: reconnect_delay_spec(next as nat) as u64,
                    })
                    &&& exists|e1: Event, e2: Event, e3: Event|
                        #[trigger] published_three(*old(bus), *final(bus), e1, e2, e3)
                            && lost_event(e1, err, true) && error_event(e2, err, true)
                            && reconnecting_event(e3, next)
                }
            },
    {
        match outcome {
            Ok(()) => {
                self.state = ConnectionState::Connected;
                let ev = Event::new(
                    Channel::raw("system.connection.established".to_owned()),
                    EventSource::Xmpp,
                    EventPayload::ConnectionEstablished { jid: self.config.jid.clone() },
                );
                let ghost evg = ev;
                let _ = bus.publish(ev);
                proof {
                    assert(published_any(*old(bus), *bus, evg) && established_event(
                        evg,
                        old(self).jid_spec(),
                    ));
                }
                ConnectStep::Established
            },
            Err(err) => {
                let next = if self.attempt == u32::MAX {
                    u32::MAX
                } else {
                    self.attempt + 1
                };
                let will_retry = err.is_retryable() && self.should_retry(next);
                let e1 = Event::new(
                    Channel::raw("system.connection.lost".to_owned()),
                    EventSource::Xmpp,
                    EventPayload::ConnectionLost { reason: err.message(), will_retry },
                );
                let ghost e1g = e1;
                let ghost b0 = *bus;
                let _ = bus.publish(e1);
                let ghost b1 = *bus;
                let e2 = Event::new(
                    Channel::raw("system.error.occurred".to_owned()),
                    EventSource::Xmpp,
                    EventPayload::ErrorOccurred {
                        component: "connection".to_owned(),
                        message: err.message(),
                        recoverable: will_retry,
                    },
                );
                let ghost e2g = e2;
                proof {
                    crate::bus::lemma_room_after_publish(b0, b1, e1g, 3);
                }
                let _ = bus.publish(e2);
                let ghost b2 = *bus;
                proof {
                    assert(published_any(b0, b1, e1g) && published_any(b1, b2, e2g));
                    assert(published_two(b0, b2, e1g, e2g));
                    crate::bus::lemma_room_after_publish(b1, b2, e2g, 2);
                }
                if !will_retry {
                    self.state = ConnectionState::Disconnected;
                    proof {
                        assert(published_two(*old(bus), *bus, e1g, e2g) && lost_event(
                            e1g,
                            err,
                            false,
                        ) && error_event(e2g, err, false));
                    }
                    return ConnectStep::GiveUp(err);
                }
                self.attempt = next;
                self.state = ConnectionState::Reconnecting { attempt: next };
                let e3 = Event::new(
                    Channel::raw("system.connection.reconnecting".to_owned()),
                    EventSource::Xmpp,
                    EventPayload::ConnectionReconnecting { attempt: next },
                );
                let ghost e3g = e3;
                let _ = bus.publish(e3);
                proof {
                    assert(published_two(b0, b2, e1g, e2g) && published_any(b2, *bus, e3g));
                    assert(published_three(*old(bus), *bus, e1g, e2g, e3g) && lost_event(
                        e1g,
                        err,
                        true,
                    ) && error_event(e2g, err, true) && reconnecting_event(e3g, next));
                }
                let delay_secs = Self::reconnect_delay(next);
                ConnectStep::RetryAfter { attempt: next, delay_secs }
            },
        }
    }

    /// The driver calls this after the backoff sleep, before the next
    /// attempt.
    pub fn resume_connecting(&mut self)
        ensures
            final(self).state_spec() == ConnectionState::Connecting,
            final(self).attempt_spec() == old(self).attempt_spec(),
            final(self).jid_spec() == old(self).jid_spec(),
            final(self).max_attempts_spec() == old(self).max_attempts_spec(),
    {
        self.state = ConnectionState::Connecting;
    }

    /// Finish a disconnect. `close_error` is the failure of the
    /// transport's close call, if the driver held a transport and the
    /// close failed. Either way the manager ends `Disconnected`; a lost
    /// event is emitted unless the manager was already disconnected and
    /// no transport close failed.
    pub fn disconnect(
        &mut self,
        bus: &mut BroadcastEventBus,
        close_error: Option<ConnectionError>,
    ) -> (r: Result<(), ConnectionError>)
        requires
            old(bus).inv(),
            old(bus).room(2),
        ensures
            final(bus).inv(),
            final(self).state_spec() == ConnectionState::Disconnected,
            final(self).jid_spec() == old(self).jid_spec(),
            final(self).max_attempts_spec() == old(self).max_attempts_spec(),
            close_error matches Some(err) ==> {
                &&& r == Result::<(), ConnectionError>::Err(err)
                &&& exists|e1: Event, e2: Event|
                    #[trigger] published_two(*old(bus), *final(bus), e1, e2) && lost_event(
                        e1,
                        err,
                        false,
                    ) && error_event(e2, err, retryable(err))
            },
            close_error is None ==> {
                &&& r is Ok
                &&& old(self).state_spec() != ConnectionState::Disconnected ==> exists|e: Event|
                    #[trigger] published_any(*old(bus), *final(bus), e) && (
                    e.payload matches EventPayload::ConnectionLost { reason, will_retry } && reason@
                        == "user requested disconnect"@ && will_retry == false) && e.channel@
                        == "system.connection.lost"@
                &&& old(self).state_spec() == ConnectionState::Disconnected ==> *final(bus)
                    == *old(bus)
            },
    {
        match close_error {
            Some(err) => {
                self.state = ConnectionState::Disconnected;
                let recoverable = err.is_retryable();
                let e1 = Event::new(
                    Channel::raw("system.connection.lost".to_owned()),
                    EventSource::Xmpp,
                    EventPayload::ConnectionLost { reason: err.message(), will_retry: false },
                );
                let ghost e1g = e1;
                let ghost b0 = *bus;
                let _ = bus.publish(e1);
                let ghost b1 = *bus;
                proof {
                    crate::bus::lemma_room_after_publish(b0, b1, e1g, 2);
                }
                let e2 = Event::new(
                    Channel::raw("system.error.occurred".to_owned()),
                    EventSource::Xmpp,
                    EventPayload::ErrorOccurred {
                        component: "connection".to_owned(),
                        message: err.message(),
                        recoverable,
                    },
                );
                let ghost e2g = e2;
                let _ = bus.publish(e2);
                proof {
                    assert(published_any(b0, b1, e1g) && published_any(b1, *bus, e2g));
                    assert(published_two(*old(bus), *bus, e1g, e2g) && lost_event(e1g, err, false)
                        && error_event(e2g, err, retryable(err)));
                }
                Err(err)
            },
            None => {
                let was_disconnected = matches!(self.state, ConnectionState::Disconnected);
                self.state = ConnectionState::Disconnected;
                if !was_disconnected {
                    let ev = Event::new(
                        Channel::raw("system.connection.lost".to_owned()),
                        EventSource::Xmpp,
                        EventPayload::ConnectionLost {
                            reason: "user requested disconnect".to_owned(),
                            will_retry: false,
                        },
                    );
                    let ghost evg = ev;
                    let _ = bus.publish(ev);
                    proof {
                        assert(published_any(*old(bus), *bus, evg));
                    }
                }
                Ok(())
            },
        }
    }
}

} // verus!
