//! The event envelope and the payload vocabulary shared over the bus.

use vstd::prelude::*;

use crate::channel::Channel;
use crate::clock::now_millis;
use crate::ids::fresh_uuid;

verus! {

/// Identifies the source of an event.
#[derive(Debug, Clone, PartialEq, Eq)]
pub enum EventSource {
    /// Core system component.
    System(String),
    /// XMPP subsystem.
    Xmpp,
    /// User interface.
    Ui(UiTarget),
    /// Plugin with its id.
    Plugin(String),
}

#[derive(Debug, Clone, Copy, PartialEq, Eq, Structural)]
pub enum UiTarget {
    Tui,
    Gui,
}

/// Roster subscription state.
#[derive(Debug, Clone, Copy, PartialEq, Eq, Structural)]
pub enum Subscription {
    NotSubscribed,
    To,
    From,
    Both,
    Remove,
}

#[derive(Debug, Clone, Copy, PartialEq, Eq, Structural)]
pub enum MessageType {
    Chat,
    Groupchat,
    Normal,
    Headline,
    Error,
}

/// XMPP presence "show" values.
#[derive(Debug, Clone, Copy, PartialEq, Eq, Structural)]
pub enum PresenceShow {
    /// Available (the default).
    Available,
    /// Free for chat.
    Chat,
    /// Away.
    Away,
    /// Extended away.
    Xa,
    /// Do not disturb.
    Dnd,
    /// Unavailable (offline).
    Unavailable,
}

/// Chat state notifications.
#[derive(Debug, Clone, Copy, PartialEq, Eq, Structural)]
pub enum ChatState {
    Active,
    Composing,
    Paused,
    Inactive,
    Gone,
}

#[derive(Debug, Clone, Copy, PartialEq, Eq, Structural)]
pub enum MucAffiliation {
    Owner,
    Admin,
    Member,
    Outcast,
    Unaffiliated,
}

#[derive(Debug, Clone, Copy, PartialEq, Eq, Structural)]
pub enum MucRole {
    Moderator,
    Participant,
    Visitor,
    /// No role: the occupant has left the room.
    NoRole,
}

#[derive(Debug, Clone, Copy, PartialEq, Eq, Structural)]
pub enum ScrollDirection {
    Up,
    Down,
    Top,
    Bottom,
}

/// A single entry in the XMPP roster, keyed by bare JID.
#[derive(Debug, Clone, PartialEq, Eq)]
pub struct RosterItem {
    /// The contact's bare JID.
    pub jid: String,
    /// Display name set by the user, if any.
    pub name: Option<String>,
    /// Roster subscription state.
    pub subscription: Subscription,
    /// User-defined groups this contact belongs to.
    pub groups: Vec<String>,
}

pub struct RosterItemView {
    pub jid: Seq<char>,
    pub name: Option<Seq<char>>,
    pub subscription: Subscription,
    pub groups: Seq<Seq<char>>,
}

impl View for RosterItem {
    type V = RosterItemView;

    open spec fn view(&self) -> RosterItemView {
        RosterItemView {
            jid: self.jid@,
            name: view_opt_str(self.name),
            subscription: self.subscription,
            groups: self.groups@.map_values(|s: String| s@),
        }
    }
}

/// A chat message (one-to-one or MUC); `id` is the dedup key.
#[derive(Debug, Clone, PartialEq, Eq)]
pub struct ChatMessage {
    /// Server-assigned or client-generated unique message id.
    pub id: String,
    /// Bare JID of the sender.
    pub from: String,
    /// Bare JID of the recipient (or room JID for MUC).
    pub to: String,
    /// Plain-text message body.
    pub body: String,
    /// When the message was sent, in UTC milliseconds.
    pub timestamp: i64,
    /// Message type.
    pub message_type: MessageType,
    /// Thread id for conversation threading, if present.
    pub thread: Option<String>,
}

pub struct ChatMessageView {
    pub id: Seq<char>,
    pub from: Seq<char>,
    pub to: Seq<char>,
    pub body: Seq<char>,
    pub timestamp: int,
    pub message_type: MessageType,
    pub thread: Option<Seq<char>>,
}

impl View for ChatMessage {
    type V = ChatMessageView;

    open spec fn view(&self) -> ChatMessageView {
        ChatMessageView {
            id: self.id@,
            from: self.from@,
            to: self.to@,
            body: self.body@,
            timestamp: self.timestamp as int,
            message_type: self.message_type,
            thread: view_opt_str(self.thread),
        }
    }
}

/// Presence of one bare JID.
#[derive(Debug, Clone, PartialEq, Eq)]
pub struct PresenceInfo {
    /// The bare JID this presence belongs to.
    pub jid: String,
    pub show: PresenceShow,
    pub status: Option<String>,
    pub priority: i8,
    /// When the presence was last updated, in UTC milliseconds.
    pub last_updated: i64,
}

pub struct PresenceInfoView {
    pub jid: Seq<char>,
    pub show: PresenceShow,
    pub status: Option<Seq<char>>,
    pub priority: i8,
    pub last_updated: int,
}

impl View for PresenceInfo {
    type V = PresenceInfoView;

    open spec fn view(&self) -> PresenceInfoView {
        PresenceInfoView {
            jid: self.jid@,
            show: self.show,
            status: view_opt_str(self.status),
            priority: self.priority,
            last_updated: self.last_updated as int,
        }
    }
}

/// An occupant in a MUC room, identified by nick.
#[derive(Debug, Clone, PartialEq, Eq)]
pub struct MucOccupant {
    /// The occupant's room nick.
    pub nick: String,
    /// The occupant's real JID, if visible.
    pub jid: Option<String>,
    /// MUC affiliation.
    pub affiliation: MucAffiliation,
    /// MUC role; `None` denotes departure.
    pub role: MucRole,
}

pub struct MucOccupantView {
    pub nick: Seq<char>,
    pub jid: Option<Seq<char>>,
    pub affiliation: MucAffiliation,
    pub role: MucRole,
}

impl View for MucOccupant {
    type V = MucOccupantView;

    open spec fn view(&self) -> MucOccupantView {
        MucOccupantView {
            nick: self.nick@,
            jid: view_opt_str(self.jid),
            affiliation: self.affiliation,
            role: self.role,
        }
    }
}

/// The typed event payload: a tagged union grouped by domain.
#[derive(Debug, Clone, PartialEq, Eq)]
pub enum EventPayload {
    // System events.
    StartupComplete,
    ShutdownRequested { reason: String },
    ConnectionEstablished { jid: String },
    ConnectionLost { reason: String, will_retry: bool },
    ConnectionReconnecting { attempt: u32 },
    GoingOffline,
    ComingOnline,
    SyncStarted,
    SyncCompleted { messages_synced: u64 },
    ConfigReloaded,
    ErrorOccurred { component: String, message: String, recoverable: bool },
    // XMPP roster events.
    RosterReceived { items: Vec<RosterItem> },
    RosterUpdated { item: RosterItem },
    RosterRemoved { jid: String },
    SubscriptionRequest { from: String },
    SubscriptionApproved { jid: String },
    SubscriptionRevoked { jid: String },
    // XMPP presence events.
    PresenceChanged { jid: String, show: PresenceShow, status: Option<String>, priority: i8 },
    OwnPresenceChanged { show: PresenceShow, status: Option<String> },
    // XMPP message events.
    MessageReceived { message: ChatMessage },
    MessageSent { message: ChatMessage },
    MessageDelivered { id: String, to: String },
    ChatStateReceived { from: String, state: ChatState },
    MucMessageReceived { room: String, message: ChatMessage },
    MucJoined { room: String, nick: String },
    MucLeft { room: String },
    MucSubjectChanged { room: String, subject: String },
    MucOccupantChanged { room: String, occupant: MucOccupant },
    // XMPP archive events.
    MamResultReceived { query_id: String, messages: Vec<ChatMessage>, complete: bool },
    MamFinReceived { iq_id: String, complete: bool, last_id: Option<String> },
    // XMPP debug events.
    RawStanzaReceived { stanza: String },
    RawStanzaSent { stanza: String },
    // UI inbound events.
    ConversationOpened { jid: String },
    ConversationClosed { jid: String },
    ScrollRequested { jid: String, direction: ScrollDirection },
    ComposeStarted { jid: String },
    SearchRequested { query: String },
    ThemeChanged { theme_id: String },
    NotificationClicked { event_id: String },
    // UI outbound requests emitted by the core.
    RosterFetchRequested,
    RosterAddRequested { jid: String, name: Option<String>, groups: Vec<String> },
    PresenceSetRequested { show: PresenceShow, status: Option<String> },
    MessageSendRequested { id: String, to: String, body: String },
    ChatStateSendRequested { to: String, state: ChatState },
    MucJoinRequested { room: String, nick: String },
    MucSendRequested { room: String, body: String },
    MamQueryRequested { query_id: String, after: Option<String>, before: Option<String>, max: u32 },
    // Plugin events.
    PluginLoaded { plugin_id: String, version: String },
    PluginUnloaded { plugin_id: String },
    PluginError { plugin_id: String, error: String },
    PluginCustomEvent { plugin_id: String, event_type: String, data: String },
    PluginInstallStarted { plugin_id: String },
    PluginInstallCompleted { plugin_id: String },
}

/// The standard event envelope wrapping all events in the system.
#[derive(Debug, Clone, PartialEq, Eq)]
pub struct Event {
    /// Hierarchical channel name (e.g. `xmpp.message.received`).
    pub channel: Channel,
    /// When the event was created, in UTC milliseconds.
    pub timestamp: i64,
    /// Unique identifier of this event.
    pub id: String,
    /// Optional correlation id linking related events.
    pub correlation_id: Option<String>,
    /// Source component that emitted this event.
    pub source: EventSource,
    /// The typed event payload.
    pub payload: EventPayload,
}

impl Event {
    /// Create a new event with a given channel and payload; the
    /// timestamp and id come from the clock and the id generator.
    pub fn new(channel: Channel, source: EventSource, payload: EventPayload) -> (r: Event)
        ensures
            r.channel == channel,
            r.source == source,
            r.payload == payload,
            r.correlation_id is None,
    {
        Event {
            channel,
            timestamp: now_millis(),
            id: fresh_uuid(),
            correlation_id: None,
            source,
            payload,
        }
    }

    /// Create a new event carrying a correlation id.
    pub fn with_correlation(
        channel: Channel,
        source: EventSource,
        payload: EventPayload,
        correlation_id: String,
    ) -> (r: Event)
        ensures
            r.channel == channel,
            r.source == source,
            r.payload == payload,
            r.correlation_id matches Some(c) && c == correlation_id,
    {
        Event {
            channel,
            timestamp: now_millis(),
            id: fresh_uuid(),
            correlation_id: Some(correlation_id),
            source,
            payload,
        }
    }
}

/// View of an optional string.
pub open spec fn view_opt_str(o: Option<String>) -> Option<Seq<char>> {
    match o {
        Option::Some(s) => Option::Some(s@),
        Option::None => Option::None,
    }
}

/// View of a list of strings.
pub open spec fn view_strs(v: Seq<String>) -> Seq<Seq<char>> {
    v.map_values(|s: String| s@)
}

/// Clone an optional string, keeping its view.
pub fn clone_opt_str(o: &Option<String>) -> (r: Option<String>)
    ensures
        view_opt_str(r) == view_opt_str(*o),
{
    match o {
        Option::Some(s) => Option::Some(s.clone()),
        Option::None => Option::None,
    }
}

/// Clone a list of strings, keeping its view.
pub fn clone_strs(v: &Vec<String>) -> (r: Vec<String>)
    ensures
        view_strs(r@) == view_strs(v@),
{
    let mut out: Vec<String> = Vec::new();
    let mut i: usize = 0;
    while i < v.len()
        invariant
            i <= v@.len(),
            out@.len() == i,
            forall|j: int| 0 <= j < i ==> #[trigger] out@[j]@ == v@[j]@,
        decreases v@.len() - i,
    {
        out.push(v[i].clone());
        i += 1;
    }
    proof {
        assert(view_strs(out@) =~= view_strs(v@));
    }
    out
}

/// Clone a chat message, keeping its view.
pub fn clone_message(m: &ChatMessage) -> (r: ChatMessage)
    ensures
        r@ == m@,
{
    let r = ChatMessage {
        id: m.id.clone(),
        from: m.from.clone(),
        to: m.to.clone(),
        body: m.body.clone(),
        timestamp: m.timestamp,
        message_type: m.message_type,
        thread: clone_opt_str(&m.thread),
    };
    r
}

/// Clone a roster item, keeping its view.
pub fn clone_roster_item(it: &RosterItem) -> (r: RosterItem)
    ensures
        r@ == it@,
{
    let r = RosterItem {
        jid: it.jid.clone(),
        name: clone_opt_str(&it.name),
        subscription: it.subscription,
        groups: clone_strs(&it.groups),
    };
    r
}

/// Clone a presence record, keeping its view.
pub fn clone_presence(p: &PresenceInfo) -> (r: PresenceInfo)
    ensures
        r@ == p@,
{
    let r = PresenceInfo {
        jid: p.jid.clone(),
        show: p.show,
        status: clone_opt_str(&p.status),
        priority: p.priority,
        last_updated: p.last_updated,
    };
    r
}

/// Clone a MUC occupant, keeping its view.
pub fn clone_occupant(o: &MucOccupant) -> (r: MucOccupant)
    ensures
        r@ == o@,
{
    let r = MucOccupant {
        nick: o.nick.clone(),
        jid: clone_opt_str(&o.jid),
        affiliation: o.affiliation,
        role: o.role,
    };
    r
}

} // verus!
