//! Error types of the coordination core.

use vstd::prelude::*;

verus! {

/// Errors of the event bus and of channel validation.
#[derive(Debug, Clone, PartialEq, Eq)]
pub enum EventBusError {
    /// The event's channel does not name a known domain.
    InvalidChannel(String),
    /// The subscription pattern is empty or not a valid glob.
    InvalidPattern(String),
    /// Every sender attached to the subscription is gone.
    ChannelClosed,
    /// The subscriber fell behind; the payload is the count of skipped
    /// events. The subscriber is re-armed at the oldest retained event.
    Lagged(u64),
}

/// Errors of the connection manager and its transport.
#[derive(Debug, Clone, PartialEq, Eq)]
pub enum ConnectionError {
    /// The connection attempt timed out.
    Timeout,
    /// A network-level failure.
    Network(String),
    /// The server closed the connection.
    ServerDisconnected(String),
    /// Authentication was rejected.
    AuthenticationFailed(String),
    /// The peer violated the protocol.
    Protocol(String),
    /// The connection configuration is malformed.
    InvalidConfig(String),
}

/// Which connection errors may be retried: timeouts, network errors and
/// server disconnects are transient; authentication, protocol and
/// configuration errors are not.
pub open spec fn retryable(e: ConnectionError) -> bool {
    match e {
        ConnectionError::Timeout => true,
        ConnectionError::Network(_) => true,
        ConnectionError::ServerDisconnected(_) => true,
        ConnectionError::AuthenticationFailed(_) => false,
        ConnectionError::Protocol(_) => false,
        ConnectionError::InvalidConfig(_) => false,
    }
}

impl ConnectionError {
    /// Whether a failed attempt with this error may be retried.
    pub fn is_retryable(&self) -> (r: bool)
        ensures
            r == retryable(*self),
    {
        match self {
            ConnectionError::Timeout => true,
            ConnectionError::Network(_) => true,
            ConnectionError::ServerDisconnected(_) => true,
            ConnectionError::AuthenticationFailed(_) => false,
            ConnectionError::Protocol(_) => false,
            ConnectionError::InvalidConfig(_) => false,
        }
    }

    /// A short description, used as the reason of a connection-lost event.
    pub fn message(&self) -> (r: String)
        ensures
            r@ == message_of(*self),
    {
        match self {
            ConnectionError::Timeout => "connection timed out".to_owned(),
            ConnectionError::Network(_) => "network error".to_owned(),
            ConnectionError::ServerDisconnected(_) => "server disconnected".to_owned(),
            ConnectionError::AuthenticationFailed(_) => "authentication failed".to_owned(),
            ConnectionError::Protocol(_) => "protocol error".to_owned(),
            ConnectionError::InvalidConfig(_) => "invalid configuration".to_owned(),
        }
    }
}

/// The description each connection error carries.
pub open spec fn message_of(e: ConnectionError) -> Seq<char> {
    match e {
        ConnectionError::Timeout => "connection timed out"@,
        ConnectionError::Network(_) => "network error"@,
        ConnectionError::ServerDisconnected(_) => "server disconnected"@,
        ConnectionError::AuthenticationFailed(_) => "authentication failed"@,
        ConnectionError::Protocol(_) => "protocol error"@,
        ConnectionError::InvalidConfig(_) => "invalid configuration"@,
    }
}

/// Errors of the presence manager.
#[derive(Debug, Clone, PartialEq, Eq)]
pub enum PresenceError {
    SendFailed(String),
    InvalidPriority(i16),
    EventBus(String),
}

/// Errors of the archive catch-up manager.
#[derive(Debug, Clone, PartialEq, Eq)]
pub enum MamError {
    /// The server does not offer a message archive.
    NotSupported,
    /// The query failed; the payload describes the failure.
    QueryFailed(String),
    /// The query timed out after the given number of seconds.
    Timeout(u64),
    /// A storage failure.
    Storage(String),
    /// An event-bus failure.
    EventBus(String),
}

/// Errors of the plugin key-value store.
#[derive(Debug, Clone, PartialEq, Eq)]
pub enum KvError {
    ValueTooLarge { size: u64, limit: u64 },
    QuotaExceeded { current: u64, limit: u64 },
    Storage(String),
    NotImplemented,
}

/// Errors of the plugin registry.
#[derive(Debug, Clone, PartialEq, Eq)]
pub enum RegistryError {
    ResolveFailed { reference: String, reason: String },
    PullFailed { reference: String, reason: String },
    InvalidManifest { id: String, reason: String },
    SignatureVerificationFailed { reference: String, reason: String },
    NotInstalled { id: String },
    AlreadyInstalled { id: String, version: String },
    AuthenticationFailed { registry: String, reason: String },
    NotImplemented,
}

/// Errors of the plugin runtime.
#[derive(Debug, Clone, PartialEq, Eq)]
pub enum PluginError {
    NotImplemented,
    NotFound { id: String },
}

} // verus!
