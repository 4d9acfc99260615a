//! One-to-one messaging: persistence of sent and received messages,
//! gating of outbound traffic on the connection state, the offline
//! command queue with FIFO drain, and the three reconciliation paths
//! (server echo, delivery receipt, archive result) that move a queued
//! row to `confirmed`.

use vstd::prelude::*;

use crate::bus::{
    lemma_published_seq_empty, lemma_published_seq_snoc, lemma_room_after_publish, published_any,
    published_seq, BroadcastEventBus,
};
use crate::channel::Channel;
use crate::clock::now_millis;
use crate::error::EventBusError;
use crate::event::{
    clone_opt_str, clone_strs, view_opt_str, view_strs, ChatMessage, ChatMessageView, ChatState,
    Event, EventPayload, EventSource, MessageType,
};
use crate::ids::fresh_uuid;
use crate::store::{
    conv_pred, cut_spec, insert_msg_spec, msg_views, page_of, queue_wf, view_opt_str_ref,
    QueueEntryView, QueueStatus, QueuedCommand, QueuedCommandView, StanzaType, Store,
};
use crate::strings::str_eq;

verus! {

/// Whether a queue row is waiting to be sent.
pub open spec fn is_pending(e: QueueEntryView) -> bool {
    e.status == QueueStatus::Pending
}

/// The pending rows of the queue, in queue (= ascending id) order.
pub open spec fn pending_of(q: Seq<QueueEntryView>) -> Seq<QueueEntryView> {
    q.filter(|e: QueueEntryView| is_pending(e))
}

/// What the drain does to one row: a pending message row becomes
/// `sent`; a pending non-message row becomes `confirmed` (it has no ack
/// pathway); other rows are untouched.
pub open spec fn drained_entry(e: QueueEntryView) -> QueueEntryView {
    if e.status == QueueStatus::Pending {
        QueueEntryView {
            status: if e.stanza_type == StanzaType::Message {
                QueueStatus::Sent
            } else {
                QueueStatus::Confirmed
            },
            ..e
        }
    } else {
        e
    }
}

pub open spec fn drained_queue(q: Seq<QueueEntryView>) -> Seq<QueueEntryView> {
    Seq::new(q.len(), |i: int| drained_entry(q[i]))
}

/// The event a drained row re-emits: its stored request.
pub open spec fn drain_event_ok(e: Event, en: QueueEntryView) -> bool {
    match en.command {
        QueuedCommandView::Message { msg_id, to, body } => {
            &&& e.channel@ == "ui.message.send"@
            &&& e.payload matches EventPayload::MessageSendRequested { id: i2, to: t2, body: b2 }
                && i2@ == msg_id && t2@ == to && b2@ == body
        },
        QueuedCommandView::RosterAdd { jid, name, groups } => {
            &&& e.channel@ == "ui.roster.add"@
            &&& e.payload matches EventPayload::RosterAddRequested { jid: j2, name: n2, groups: g2 }
                && j2@ == jid && view_opt_str(n2) == name && view_strs(g2@) == groups
        },
    }
}

/// The message-send request for a fresh outbound message.
pub open spec fn msg_send_event(e: Event, id: Seq<char>, to: Seq<char>, body: Seq<char>) -> bool {
    &&& e.channel@ == "ui.message.send"@
    &&& e.payload matches EventPayload::MessageSendRequested { id: i2, to: t2, body: b2 } && i2@
        == id && t2@ == to && b2@ == body
}

pub open spec fn coming_online_event(e: Event) -> bool {
    &&& e.channel@ == "system.coming.online"@
    &&& e.payload is ComingOnline
}

pub open spec fn going_offline_event(e: Event) -> bool {
    &&& e.channel@ == "system.going.offline"@
    &&& e.payload is GoingOffline
}

pub open spec fn chat_state_event(e: Event, to: Seq<char>, state: ChatState) -> bool {
    &&& e.channel@ == "ui.chatstate.send"@
    &&& e.payload matches EventPayload::ChatStateSendRequested { to: t2, state: s2 } && t2@ == to
        && s2 == state
}

/// The id a message-command row carries, if it is one.
pub open spec fn entry_msg_id(e: QueueEntryView) -> Option<Seq<char>> {
    match e.command {
        QueuedCommandView::Message { msg_id, .. } => Option::Some(msg_id),
        _ => Option::None,
    }
}

/// The queue after a server echo of message `id`: a message row with
/// that id still `pending` is marked `sent`; everything else is kept.
pub open spec fn echo_queue(q: Seq<QueueEntryView>, id: Seq<char>) -> Seq<QueueEntryView> {
    Seq::new(
        q.len(),
        |i: int|
            if entry_msg_id(q[i]) == Option::Some(id) && q[i].status == QueueStatus::Pending {
                QueueEntryView { status: QueueStatus::Sent, ..q[i] }
            } else {
                q[i]
            },
    )
}

/// The queue after a delivery receipt for message `id`: a message row
/// with that id is marked `confirmed`.
pub open spec fn delivered_queue(q: Seq<QueueEntryView>, id: Seq<char>) -> Seq<QueueEntryView> {
    Seq::new(
        q.len(),
        |i: int|
            if entry_msg_id(q[i]) == Option::Some(id) {
                QueueEntryView { status: QueueStatus::Confirmed, ..q[i] }
            } else {
                q[i]
            },
    )
}

/// Whether an archived message confirms a queue row authored by us:
/// either by id, or — the archive assigns its own stanza ids — by the
/// full content of a message we sent.
pub open spec fn mam_match(en: QueueEntryView, m: ChatMessageView, own: Seq<char>) -> bool {
    &&& en.command matches QueuedCommandView::Message { msg_id, to, body } && (m.id == msg_id || (
    m.from == own && m.to == to && m.body == body))
    &&& (en.status == QueueStatus::Pending || en.status == QueueStatus::Sent)
}

/// The queue after an archive result: every row some archived message
/// confirms is marked `confirmed`.
pub open spec fn mam_reconciled_queue(
    q: Seq<QueueEntryView>,
    msgs: Seq<ChatMessageView>,
    own: Seq<char>,
) -> Seq<QueueEntryView> {
    Seq::new(
        q.len(),
        |i: int|
            if exists|k: int| 0 <= k < msgs.len() && mam_match(q[i], #[trigger] msgs[k], own) {
                QueueEntryView { status: QueueStatus::Confirmed, ..q[i] }
            } else {
                q[i]
            },
    )
}

/// Which payloads this manager reacts to.
pub open spec fn message_relevant(p: EventPayload) -> bool {
    ||| p is ConnectionEstablished
    ||| p is ConnectionLost
    ||| p is MessageReceived
    ||| p is MessageSent
    ||| p is MessageDelivered
    ||| p is MamResultReceived
    ||| p is RosterAddRequested
    ||| p is ChatStateReceived
}


/// Every drained row occurs in the queue.
proof fn lemma_pending_member(q: Seq<QueueEntryView>, k: int)
    requires
        0 <= k < pending_of(q).len(),
    ensures
        exists|w: int| 0 <= w < q.len() && q[w] == pending_of(q)[k],
    decreases q.len(),
{
    reveal(Seq::filter);
    if q.len() > 0 {
        let q0 = q.drop_last();
        let p0 = pending_of(q0);
        if k < p0.len() {
            lemma_pending_member(q0, k);
            let w = choose|w: int| 0 <= w < q0.len() && q0[w] == p0[k];
            assert(q[w] == q0[w] && q[w] == pending_of(q)[k]);
        } else {
            assert(q[q.len() - 1] == pending_of(q)[k]);
        }
    }
}

/// Offline-queue FIFO: the rows the drain emits are the pending rows in
/// queue order, and queue row ids ascend strictly — so the drain's
/// emissions are in ascending row id order.
pub proof fn lemma_offline_queue_fifo(q: Seq<QueueEntryView>, next: int)
    requires
        queue_wf(q, next),
    ensures
        forall|k1: int, k2: int|
            0 <= k1 < k2 < pending_of(q).len() ==> (#[trigger] pending_of(q)[k1]).id < (
            #[trigger] pending_of(q)[k2]).id,
    decreases q.len(),
{
    if q.len() > 0 {
        let q0 = q.drop_last();
        assert(queue_wf(q0, next));
        lemma_offline_queue_fifo(q0, next);
        let p = pending_of(q);
        let p0 = pending_of(q0);
        reveal(Seq::filter);
        assert forall|k1: int, k2: int| 0 <= k1 < k2 < p.len() implies (#[trigger] p[k1]).id < (
        #[trigger] p[k2]).id by {
            if k2 < p0.len() {
                assert(p0[k1].id < p0[k2].id);
            } else {
                // k2 names the just-appended last row; k1 names a row of
                // the prefix, whose id is smaller since ids ascend.
                assert(p == p0.push(q.last()));
                assert(p[k2] == q.last());
                lemma_pending_member(q0, k1);
                let w = choose|w: int| 0 <= w < q0.len() && q0[w] == p0[k1];
                assert(q[w] == q0[w]);
                assert(q[w].id < q.last().id);
            }
        }
    }
}

/// One-to-one messaging and the offline queue.
pub struct MessageManager {
    online: bool,
    own_jid: String,
}

impl MessageManager {
    pub closed spec fn online_spec(self) -> bool {
        self.online
    }

    pub closed spec fn own_jid_spec(self) -> Seq<char> {
        self.own_jid@
    }

    /// A fresh manager: offline, with no jid yet.
    pub fn new() -> (r: MessageManager)
        ensures
            !r.online_spec(),
            r.own_jid_spec().len() == 0,
    {
        MessageManager { online: false, own_jid: String::new() }
    }

    /// Send a one-to-one message: persist it, enqueue the send request,
    /// and — when online — emit `ui.message.send` at once, marking the
    /// row `sent`; offline the row stays `pending` and nothing is
    /// emitted. Returns the constructed message.
    pub fn send_message(
        &self,
        store: &mut Store,
        bus: &mut BroadcastEventBus,
        to: &str,
        body: &str,
    ) -> (r: ChatMessage)
        requires
            old(store).wf(),
            old(store).next_qid() < u64::MAX,
            old(bus).inv(),
            old(bus).room(1),
        ensures
            final(store).wf(),
            final(bus).inv(),
            r@.from == self.own_jid_spec(),
            r@.to == to@,
            r@.body == body@,
            r@.message_type == MessageType::Chat,
            r@.thread is None,
            final(store).messages() == insert_msg_spec(old(store).messages(), r@),
            final(store).queue() == old(store).queue().push(QueueEntryView {
                id: old(store).next_qid(),
                stanza_type: StanzaType::Message,
                command: QueuedCommandView::Message { msg_id: r@.id, to: to@, body: body@ },
                status: if self.online_spec() {
                    QueueStatus::Sent
                } else {
                    QueueStatus::Pending
                },
                enqueued_at: final(store).queue().last().enqueued_at,
            }),
            final(store).roster() == old(store).roster(),
            final(store).rooms() == old(store).rooms(),
            final(store).cursors() == old(store).cursors(),
            final(store).next_qid() == old(store).next_qid() + 1,
            self.online_spec() ==> exists|e: Event|
                #[trigger] published_any(*old(bus), *final(bus), e) && msg_send_event(
                    e,
                    r@.id,
                    to@,
                    body@,
                ),
            !self.online_spec() ==> *final(bus) == *old(bus),
    {
        let id = fresh_uuid();
        let msg = ChatMessage {
            id: id.clone(),
            from: self.own_jid.clone(),
            to: to.to_owned(),
            body: body.to_owned(),
            timestamp: now_millis(),
            message_type: MessageType::Chat,
            thread: None,
        };
        store.insert_message(&msg);
        let command = QueuedCommand::Message {
            msg_id: id.clone(),
            to: to.to_owned(),
            body: body.to_owned(),
        };
        let now = now_millis();
        let _qid = store.enqueue(StanzaType::Message, command, now);
        let qidx = store.queue_len() - 1;
        if self.online {
            let ev = Event::new(
                Channel::raw("ui.message.send".to_owned()),
                EventSource::System("messaging".to_owned()),
                EventPayload::MessageSendRequested {
                    id: id.clone(),
                    to: to.to_owned(),
                    body: body.to_owned(),
                },
            );
            let ghost evg = ev;
            let _ = bus.publish(ev);
            store.set_queue_status(qidx, QueueStatus::Sent);
            proof {
                assert(published_any(*old(bus), *bus, evg) && msg_send_event(
                    evg,
                    msg@.id,
                    to@,
                    body@,
                ));
                assert(store.queue() =~= old(store).queue().push(QueueEntryView {
                    id: old(store).next_qid(),
                    stanza_type: StanzaType::Message,
                    command: QueuedCommandView::Message { msg_id: msg@.id, to: to@, body: body@ },
                    status: QueueStatus::Sent,
                    enqueued_at: now as int,
                }));
            }
        }
        msg
    }

    /// Emit a chat-state notification for `to`.
    pub fn send_chat_state(&self, bus: &mut BroadcastEventBus, to: &str, state: ChatState) -> (r:
        Result<(), EventBusError>)
        requires
            old(bus).inv(),
            old(bus).room(1),
        ensures
            final(bus).inv(),
            r is Ok,
            exists|e: Event|
                #[trigger] published_any(*old(bus), *final(bus), e) && chat_state_event(
                    e,
                    to@,
                    state,
                ),
    {
        let ev = Event::new(
            Channel::raw("ui.chatstate.send".to_owned()),
            EventSource::System("messaging".to_owned()),
            EventPayload::ChatStateSendRequested { to: to.to_owned(), state },
        );
        let ghost evg = ev;
        let _ = bus.publish(ev);
        proof {
            assert(published_any(*old(bus), *bus, evg) && chat_state_event(evg, to@, state));
        }
        Ok(())
    }

    /// At most `limit` messages between us and `peer_jid`, newest first,
    /// optionally paginated by `before_id`.
    pub fn get_messages(
        &self,
        store: &Store,
        peer_jid: &str,
        limit: usize,
        before_id: Option<&str>,
    ) -> (r: Vec<ChatMessage>)
        ensures
            msg_views(r@) == page_of(
                cut_spec(
                    store.messages().filter(conv_pred(self.own_jid_spec(), peer_jid@)),
                    view_opt_str_ref(before_id),
                ),
                limit as int,
            ),
    {
        store.query_conversation(self.own_jid.as_str(), peer_jid, limit, before_id)
    }

    /// React to one bus event.
    ///
    /// A new connection brings the manager online, announces
    /// `system.coming.online`, and drains the queue in ascending id
    /// order: each pending row re-emits its stored request, message rows
    /// become `sent`, other rows `confirmed`. A lost connection takes
    /// the manager offline, announcing `system.going.offline`, and
    /// leaves the queue untouched. Received and echoed messages are
    /// persisted idempotently; the echo, receipt and archive paths move
    /// queue rows towards `confirmed`. A roster-add request passing by
    /// while offline is intercepted into the queue.
    pub fn handle_event(&mut self, store: &mut Store, bus: &mut BroadcastEventBus, event: &Event)
        requires
            old(store).wf(),
            old(store).next_qid() < u64::MAX,
            old(bus).inv(),
            old(bus).room(old(store).queue().len() + 1 as int),
        ensures
            final(store).wf(),
            final(bus).inv(),
            final(store).roster() == old(store).roster(),
            final(store).rooms() == old(store).rooms(),
            final(store).cursors() == old(store).cursors(),
            event.payload matches EventPayload::ConnectionEstablished { jid } ==> {
                &&& final(self).online_spec()
                &&& final(self).own_jid_spec() == jid@
                &&& final(store).queue() == drained_queue(old(store).queue())
                &&& final(store).messages() == old(store).messages()
                &&& final(store).next_qid() == old(store).next_qid()
                &&& exists|es: Seq<Event>|
                    {
                        &&& #[trigger] published_seq(*old(bus), *final(bus), es)
                        &&& es.len() == 1 + pending_of(old(store).queue()).len()
                        &&& coming_online_event(es[0])
                        &&& forall|k: int|
                            0 <= k < pending_of(old(store).queue()).len() ==> drain_event_ok(
                                #[trigger] es[k + 1],
                                pending_of(old(store).queue())[k],
                            )
                    }
            },
            event.payload is ConnectionLost ==> {
                &&& !final(self).online_spec()
                &&& final(self).own_jid_spec() == old(self).own_jid_spec()
                &&& final(store).queue() == old(store).queue()
                &&& final(store).messages() == old(store).messages()
                &&& final(store).next_qid() == old(store).next_qid()
                &&& exists|e: Event|
                    #[trigger] published_any(*old(bus), *final(bus), e) && going_offline_event(e)
            },
            event.payload matches EventPayload::MessageReceived { message } ==> {
                &&& final(store).messages() == insert_msg_spec(old(store).messages(), message@)
                &&& final(store).queue() == old(store).queue()
                &&& final(store).next_qid() == old(store).next_qid()
                &&& *final(bus) == *old(bus)
                &&& *final(self) == *old(self)
            },
            event.payload matches EventPayload::MessageSent { message } ==> {
                &&& final(store).messages() == insert_msg_spec(old(store).messages(), message@)
                &&& final(store).queue() == echo_queue(old(store).queue(), message@.id)
                &&& final(store).next_qid() == old(store).next_qid()
                &&& *final(bus) == *old(bus)
                &&& *final(self) == *old(self)
            },
            event.payload matches EventPayload::MessageDelivered { id, to } ==> {
                &&& final(store).queue() == delivered_queue(old(store).queue(), id@)
                &&& final(store).messages() == old(store).messages()
                &&& final(store).next_qid() == old(store).next_qid()
                &&& *final(bus) == *old(bus)
                &&& *final(self) == *old(self)
            },
            event.payload matches EventPayload::MamResultReceived { messages, .. } ==> {
                &&& final(store).queue() == mam_reconciled_queue(
                    old(store).queue(),
                    msg_views(messages@),
                    old(self).own_jid_spec(),
                )
                &&& final(store).messages() == old(store).messages()
                &&& final(store).next_qid() == old(store).next_qid()
                &&& *final(bus) == *old(bus)
                &&& *final(self) == *old(self)
            },
            event.payload matches EventPayload::RosterAddRequested { jid, name, groups } ==> {
                &&& !old(self).online_spec() ==> final(store).queue() == old(store).queue().push(
                    QueueEntryView {
                        id: old(store).next_qid(),
                        stanza_type: StanzaType::Iq,
                        command: QueuedCommandView::RosterAdd {
                            jid: jid@,
                            name: view_opt_str(name),
                            groups: view_strs(groups@),
                        },
                        status: QueueStatus::Pending,
                        enqueued_at: final(store).queue().last().enqueued_at,
                    },
                )
                &&& old(self).online_spec() ==> final(store).queue() == old(store).queue()
                &&& final(store).next_qid() == (if old(self).online_spec() {
                    old(store).next_qid()
                } else {
                    old(store).next_qid() + 1
                })
                &&& final(store).messages() == old(store).messages()
                &&& *final(bus) == *old(bus)
                &&& *final(self) == *old(self)
            },
            !message_relevant(event.payload) || event.payload is ChatStateReceived ==> {
                &&& *final(store) == *old(store)
                &&& *final(bus) == *old(bus)
                &&& *final(self) == *old(self)
            },
    {
        match &event.payload {
            EventPayload::ConnectionEstablished { jid } => {
                self.online = true;
                self.own_jid = jid.clone();
                let ev = Event::new(
                    Channel::raw("system.coming.online".to_owned()),
                    EventSource::System("messaging".to_owned()),
                    EventPayload::ComingOnline,
                );
                let ghost evg = ev;
                let ghost b_start = *bus;
                let _ = bus.publish(ev);
                proof {
                    lemma_published_seq_empty(b_start);
                    lemma_published_seq_snoc(b_start, b_start, *bus, Seq::empty(), evg);
                    lemma_room_after_publish(b_start, *bus, evg, old(store).queue().len() + 1 as int);
                }
                let ghost emitted1: Seq<Event> = seq![evg];
                self.drain_queue(store, bus, Ghost(b_start), Ghost(emitted1));
            },
            EventPayload::ConnectionLost { .. } => {
                self.online = false;
                let ev = Event::new(
                    Channel::raw("system.going.offline".to_owned()),
                    EventSource::System("messaging".to_owned()),
                    EventPayload::GoingOffline,
                );
                let ghost evg = ev;
                let _ = bus.publish(ev);
                proof {
                    assert(published_any(*old(bus), *bus, evg) && going_offline_event(evg));
                }
            },
            EventPayload::MessageReceived { message } => {
                store.insert_message(message);
            },
            EventPayload::MessageSent { message } => {
                store.insert_message(message);
                self.mark_echo(store, message.id.as_str());
            },
            EventPayload::MessageDelivered { id, .. } => {
                self.mark_delivered(store, id.as_str());
            },
            EventPayload::MamResultReceived { messages, .. } => {
                self.reconcile_mam(store, messages);
            },
            EventPayload::RosterAddRequested { jid, name, groups } => {
                if !self.online {
                    let command = QueuedCommand::RosterAdd {
                        jid: jid.clone(),
                        name: clone_opt_str(name),
                        groups: clone_strs(groups),
                    };
                    let ghost cmdv = command@;
                    let now = now_millis();
                    let _ = store.enqueue(StanzaType::Iq, command, now);
                    proof {
                        assert(view_strs(groups@) =~= cmdv->RosterAdd_groups);
                    }
                }
            },
            _ => {},
        }
    }

    /// Drain the queue in ascending id order, after `emitted` was
    /// already published since `b_start`.
    #[verifier::loop_isolation(false)]
    fn drain_queue(
        &self,
        store: &mut Store,
        bus: &mut BroadcastEventBus,
        Ghost(b_start): Ghost<BroadcastEventBus>,
        Ghost(emitted0): Ghost<Seq<Event>>,
    )
        requires
            old(store).wf(),
            old(bus).inv(),
            old(bus).room(old(store).queue().len() as int),
            published_seq(b_start, *old(bus), emitted0),
        ensures
            final(store).wf(),
            final(bus).inv(),
            final(store).queue() == drained_queue(old(store).queue()),
            final(store).messages() == old(store).messages(),
            final(store).roster() == old(store).roster(),
            final(store).rooms() == old(store).rooms(),
            final(store).cursors() == old(store).cursors(),
            final(store).next_qid() == old(store).next_qid(),
            exists|es: Seq<Event>|
                {
                    &&& #[trigger] published_seq(b_start, *final(bus), emitted0 + es)
                    &&& es.len() == pending_of(old(store).queue()).len()
                    &&& forall|k: int|
                        0 <= k < es.len() ==> drain_event_ok(
                            #[trigger] es[k],
                            pending_of(old(store).queue())[k],
                        )
                },
    {
        let n = store.queue_len();
        let ghost q0 = old(store).queue();
        let mut i: usize = 0;
        let ghost mut es: Seq<Event> = Seq::empty();
        proof {
            broadcast use vstd::seq_lib::group_filter_ensures;

            reveal(Seq::filter);
            assert(pending_of(q0.take(0)) =~= Seq::<QueueEntryView>::empty());
        }
        while i < n
            invariant
                store.wf(),
                bus.inv(),
                n == q0.len(),
                store.queue().len() == n,
                i <= n,
                bus.room(n - i),
                forall|j: int| i <= j < n ==> #[trigger] store.queue()[j] == q0[j],
                forall|j: int| 0 <= j < i ==> #[trigger] store.queue()[j] == drained_entry(q0[j]),
                store.messages() == old(store).messages(),
                store.roster() == old(store).roster(),
                store.rooms() == old(store).rooms(),
                store.cursors() == old(store).cursors(),
                store.next_qid() == old(store).next_qid(),
                published_seq(b_start, *bus, emitted0 + es),
                es.len() == pending_of(q0.take(i as int)).len(),
                forall|k: int|
                    0 <= k < es.len() ==> drain_event_ok(
                        #[trigger] es[k],
                        pending_of(q0.take(i as int))[k],
                    ),
            decreases n - i,
        {
            let is_pending_row = matches!(store.queue_get(i).status, QueueStatus::Pending);
            if is_pending_row {
                let entry = store.queue_get(i);
                let new_status = match entry.stanza_type {
                    StanzaType::Message => QueueStatus::Sent,
                    _ => QueueStatus::Confirmed,
                };
                let ev = match &entry.command {
                    QueuedCommand::Message { msg_id, to, body } => Event::new(
                        Channel::raw("ui.message.send".to_owned()),
                        EventSource::System("messaging".to_owned()),
                        EventPayload::MessageSendRequested {
                            id: msg_id.clone(),
                            to: to.clone(),
                            body: body.clone(),
                        },
                    ),
                    QueuedCommand::RosterAdd { jid, name, groups } => Event::new(
                        Channel::raw("ui.roster.add".to_owned()),
                        EventSource::System("messaging".to_owned()),
                        EventPayload::RosterAddRequested {
                            jid: jid.clone(),
                            name: clone_opt_str(name),
                            groups: clone_strs(groups),
                        },
                    ),
                };
                let ghost evg = ev;
                proof {
                    assert(drain_event_ok(evg, q0[i as int])) by {
                        match q0[i as int].command {
                            QueuedCommandView::RosterAdd { jid, name, groups } => {
                                assert(view_strs(evg.payload->RosterAddRequested_groups@)
                                    =~= groups);
                            },
                            _ => {},
                        }
                    }
                }
                let ghost bprev = *bus;
                let _ = bus.publish(ev);
                proof {
                    lemma_published_seq_snoc(b_start, bprev, *bus, emitted0 + es, evg);
                    lemma_room_after_publish(bprev, *bus, evg, n - i);
                    assert((emitted0 + es).push(evg) =~= emitted0 + es.push(evg));
                    es = es.push(evg);
                }
                store.set_queue_status(i, new_status);
            }
            proof {
                broadcast use vstd::seq_lib::group_filter_ensures;

                reveal(Seq::filter);
                assert(q0.take(i + 1).drop_last() =~= q0.take(i as int));
                assert(q0.take(i + 1).last() == q0[i as int]);
                if is_pending(q0[i as int]) {
                    assert(pending_of(q0.take(i + 1)) =~= pending_of(q0.take(i as int)).push(
                        q0[i as int],
                    ));
                } else {
                    assert(pending_of(q0.take(i + 1)) =~= pending_of(q0.take(i as int)));
                }
            }
            i += 1;
        }
        proof {
            assert(q0.take(n as int) =~= q0);
            assert(store.queue() =~= drained_queue(q0));
        }
    }

    /// Mark the still-pending message row with `id` as `sent`.
    #[verifier::loop_isolation(false)]
    fn mark_echo(&self, store: &mut Store, id: &str)
        requires
            old(store).wf(),
        ensures
            final(store).wf(),
            final(store).queue() == echo_queue(old(store).queue(), id@),
            final(store).messages() == old(store).messages(),
            final(store).roster() == old(store).roster(),
            final(store).rooms() == old(store).rooms(),
            final(store).cursors() == old(store).cursors(),
            final(store).next_qid() == old(store).next_qid(),
    {
        let n = store.queue_len();
        let ghost q0 = old(store).queue();
        let mut i: usize = 0;
        while i < n
            invariant
                store.wf(),
                n == q0.len(),
                store.queue().len() == n,
                i <= n,
                forall|j: int| i <= j < n ==> #[trigger] store.queue()[j] == q0[j],
                forall|j: int| 0 <= j < i ==> #[trigger] store.queue()[j] == echo_queue(q0, id@)[j],
                store.messages() == old(store).messages(),
                store.roster() == old(store).roster(),
                store.rooms() == old(store).rooms(),
                store.cursors() == old(store).cursors(),
                store.next_qid() == old(store).next_qid(),
            decreases n - i,
        {
            let entry = store.queue_get(i);
            let is_p = matches!(entry.status, QueueStatus::Pending);
            let matches_id = match &entry.command {
                QueuedCommand::Message { msg_id, .. } => str_eq(msg_id.as_str(), id),
                _ => false,
            };
            if is_p && matches_id {
                store.set_queue_status(i, QueueStatus::Sent);
            }
            i += 1;
        }
        proof {
            assert(store.queue() =~= echo_queue(q0, id@));
        }
    }

    /// Mark the message row with `id` as `confirmed` (delivery receipt).
    #[verifier::loop_isolation(false)]
    fn mark_delivered(&self, store: &mut Store, id: &str)
        requires
            old(store).wf(),
        ensures
            final(store).wf(),
            final(store).queue() == delivered_queue(old(store).queue(), id@),
            final(store).messages() == old(store).messages(),
            final(store).roster() == old(store).roster(),
            final(store).rooms() == old(store).rooms(),
            final(store).cursors() == old(store).cursors(),
            final(store).next_qid() == old(store).next_qid(),
    {
        let n = store.queue_len();
        let ghost q0 = old(store).queue();
        let mut i: usize = 0;
        while i < n
            invariant
                store.wf(),
                n == q0.len(),
                store.queue().len() == n,
                i <= n,
                forall|j: int| i <= j < n ==> #[trigger] store.queue()[j] == q0[j],
                forall|j: int|
                    0 <= j < i ==> #[trigger] store.queue()[j] == delivered_queue(q0, id@)[j],
                store.messages() == old(store).messages(),
                store.roster() == old(store).roster(),
                store.rooms() == old(store).rooms(),
                store.cursors() == old(store).cursors(),
                store.next_qid() == old(store).next_qid(),
            decreases n - i,
        {
            let entry = store.queue_get(i);
            let matches_id = match &entry.command {
                QueuedCommand::Message { msg_id, .. } => str_eq(msg_id.as_str(), id),
                _ => false,
            };
            if matches_id {
                store.set_queue_status(i, QueueStatus::Confirmed);
            }
            i += 1;
        }
        proof {
            assert(store.queue() =~= delivered_queue(q0, id@));
        }
    }

    /// Confirm every queue row some archived message matches.
    #[verifier::loop_isolation(false)]
    fn reconcile_mam(&self, store: &mut Store, messages: &Vec<ChatMessage>)
        requires
            old(store).wf(),
        ensures
            final(store).wf(),
            final(store).queue() == mam_reconciled_queue(
                old(store).queue(),
                msg_views(messages@),
                self.own_jid_spec(),
            ),
            final(store).messages() == old(store).messages(),
            final(store).roster() == old(store).roster(),
            final(store).rooms() == old(store).rooms(),
            final(store).cursors() == old(store).cursors(),
            final(store).next_qid() == old(store).next_qid(),
    {
        let ghost own = self.own_jid_spec();
        let ghost ms = msg_views(messages@);
        let n = store.queue_len();
        let ghost q0 = old(store).queue();
        let mut i: usize = 0;
        while i < n
            invariant
                store.wf(),
                n == q0.len(),
                store.queue().len() == n,
                i <= n,
                forall|j: int| i <= j < n ==> #[trigger] store.queue()[j] == q0[j],
                forall|j: int|
                    0 <= j < i ==> #[trigger] store.queue()[j] == mam_reconciled_queue(
                        q0,
                        ms,
                        own,
                    )[j],
                store.messages() == old(store).messages(),
                store.roster() == old(store).roster(),
                store.rooms() == old(store).rooms(),
                store.cursors() == old(store).cursors(),
                store.next_qid() == old(store).next_qid(),
            decreases n - i,
        {
            let mn = messages.len();
            let mut k: usize = 0;
            let mut found = false;
            while k < mn
                invariant
                    mn == messages@.len(),
                    k <= mn,
                    i < n,
                    store.queue().len() == n,
                    store.queue()[i as int] == q0[i as int],
                    found <==> exists|t: int|
                        0 <= t < k && mam_match(q0[i as int], #[trigger] ms[t], own),
                decreases mn - k,
            {
                if !found {
                    let entry = store.queue_get(i);
                    let m = &messages[k];
                    let is_candidate = matches!(
                        entry.status,
                        QueueStatus::Pending
                        | QueueStatus::Sent
                    );
                    let matched = match &entry.command {
                        QueuedCommand::Message { msg_id, to, body } => {
                            str_eq(m.id.as_str(), msg_id.as_str()) || (str_eq(
                                m.from.as_str(),
                                self.own_jid.as_str(),
                            ) && str_eq(m.to.as_str(), to.as_str()) && str_eq(
                                m.body.as_str(),
                                body.as_str(),
                            ))
                        },
                        _ => false,
                    };
                    if is_candidate && matched {
                        found = true;
                        proof {
                            assert(mam_match(q0[i as int], ms[k as int], own));
                        }
                    }
                }
                k += 1;
            }
            if found {
                store.set_queue_status(i, QueueStatus::Confirmed);
            }
            i += 1;
        }
        proof {
            assert(store.queue() =~= mam_reconciled_queue(q0, ms, own));
        }
    }
}


} // verus!
