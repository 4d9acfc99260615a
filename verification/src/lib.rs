//! Event-driven coordination core of an XMPP chat client: a
//! domain-partitioned broadcast bus with glob subscriptions, and the
//! stateful managers (connection, roster, presence, messaging, MUC, MAM)
//! that collaborate over it.

pub mod bus;
pub mod channel;
mod clock;
pub mod connection;
pub mod error;
pub mod event;
pub mod glob;
mod ids;
pub mod kv;
pub mod mam;
pub mod message;
pub mod muc;
pub mod presence;
pub mod registry;
pub mod roster;
pub mod runtime;
pub mod store;
mod strings;

pub use channel::Channel;
