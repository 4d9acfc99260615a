//! The persistent state of the core, modelled as typed tables: chat
//! messages (deduplicated by id), the roster (keyed by bare JID), MUC
//! rooms, the offline command queue (FIFO by id), and the archive
//! catch-up cursors.

use vstd::prelude::*;

use crate::event::{
    clone_message, clone_opt_str, clone_roster_item, clone_strs, view_opt_str, ChatMessage,
    ChatMessageView, MessageType, RosterItem, RosterItemView,
};
use crate::strings::str_eq;

verus! {

/// The stanza kind of a queued outbound command.
#[derive(Debug, Clone, Copy, PartialEq, Eq, Structural)]
pub enum StanzaType {
    Message,
    Iq,
    Presence,
}

/// Lifecycle of a queued outbound command.
#[derive(Debug, Clone, Copy, PartialEq, Eq, Structural)]
pub enum QueueStatus {
    Pending,
    Sent,
    Confirmed,
    Failed,
}

/// The request a queue entry will re-emit when drained.
#[derive(Debug, Clone, PartialEq, Eq)]
pub enum QueuedCommand {
    /// A one-to-one chat message send request.
    Message { msg_id: String, to: String, body: String },
    /// A roster-add command intercepted while offline.
    RosterAdd { jid: String, name: Option<String>, groups: Vec<String> },
}

pub enum QueuedCommandView {
    Message { msg_id: Seq<char>, to: Seq<char>, body: Seq<char> },
    RosterAdd { jid: Seq<char>, name: Option<Seq<char>>, groups: Seq<Seq<char>> },
}

impl View for QueuedCommand {
    type V = QueuedCommandView;

    open spec fn view(&self) -> QueuedCommandView {
        match self {
            QueuedCommand::Message { msg_id, to, body } => QueuedCommandView::Message {
                msg_id: msg_id@,
                to: to@,
                body: body@,
            },
            QueuedCommand::RosterAdd { jid, name, groups } => QueuedCommandView::RosterAdd {
                jid: jid@,
                name: view_opt_str(*name),
                groups: groups@.map_values(|s: String| s@),
            },
        }
    }
}

/// One row of the offline queue.
#[derive(Debug, Clone, PartialEq, Eq)]
pub struct QueueEntry {
    /// Monotonic row id: the FIFO drain order.
    pub id: u64,
    pub stanza_type: StanzaType,
    pub command: QueuedCommand,
    pub status: QueueStatus,
    /// When the command was enqueued, in UTC milliseconds.
    pub enqueued_at: i64,
}

pub struct QueueEntryView {
    pub id: int,
    pub stanza_type: StanzaType,
    pub command: QueuedCommandView,
    pub status: QueueStatus,
    pub enqueued_at: int,
}

impl View for QueueEntry {
    type V = QueueEntryView;

    open spec fn view(&self) -> QueueEntryView {
        QueueEntryView {
            id: self.id as int,
            stanza_type: self.stanza_type,
            command: self.command@,
            status: self.status,
            enqueued_at: self.enqueued_at as int,
        }
    }
}

/// One persistent MUC room record.
#[derive(Debug, Clone, PartialEq, Eq)]
pub struct MucRoom {
    /// The room JID.
    pub jid: String,
    /// Our nick in the room.
    pub nick: String,
    /// Whether the join was confirmed by the server.
    pub joined: bool,
    /// The room subject, if any.
    pub subject: Option<String>,
}

pub struct MucRoomView {
    pub jid: Seq<char>,
    pub nick: Seq<char>,
    pub joined: bool,
    pub subject: Option<Seq<char>>,
}

impl View for MucRoom {
    type V = MucRoomView;

    open spec fn view(&self) -> MucRoomView {
        MucRoomView {
            jid: self.jid@,
            nick: self.nick@,
            joined: self.joined,
            subject: view_opt_str(self.subject),
        }
    }
}

/// Clone a room record, keeping its view.
pub fn clone_room(r: &MucRoom) -> (c: MucRoom)
    ensures
        c@ == r@,
{
    let c = MucRoom {
        jid: r.jid.clone(),
        nick: r.nick.clone(),
        joined: r.joined,
        subject: clone_opt_str(&r.subject),
    };
    c
}

/// One archive catch-up cursor.
#[derive(Debug, Clone, PartialEq, Eq)]
pub struct MamCursor {
    /// The JID this cursor belongs to; `__global__` for the whole account.
    pub jid: String,
    /// The last archive stanza id seen.
    pub last_stanza_id: String,
    /// When the cursor was last moved, in UTC milliseconds.
    pub last_sync_at: i64,
}

pub struct MamCursorView {
    pub jid: Seq<char>,
    pub last_stanza_id: Seq<char>,
    pub last_sync_at: int,
}

impl View for MamCursor {
    type V = MamCursorView;

    open spec fn view(&self) -> MamCursorView {
        MamCursorView {
            jid: self.jid@,
            last_stanza_id: self.last_stanza_id@,
            last_sync_at: self.last_sync_at as int,
        }
    }
}

// Sequence views of the tables.
pub open spec fn msg_views(s: Seq<ChatMessage>) -> Seq<ChatMessageView> {
    s.map_values(|m: ChatMessage| m@)
}

pub open spec fn roster_views(s: Seq<RosterItem>) -> Seq<RosterItemView> {
    s.map_values(|it: RosterItem| it@)
}

pub open spec fn room_views(s: Seq<MucRoom>) -> Seq<MucRoomView> {
    s.map_values(|r: MucRoom| r@)
}

pub open spec fn queue_views(s: Seq<QueueEntry>) -> Seq<QueueEntryView> {
    s.map_values(|e: QueueEntry| e@)
}

pub open spec fn cursor_views(s: Seq<MamCursor>) -> Seq<MamCursorView> {
    s.map_values(|c: MamCursor| c@)
}

/// Whether some message of `s` already carries `id`.
pub open spec fn has_message_id(s: Seq<ChatMessageView>, id: Seq<char>) -> bool {
    exists|i: int| 0 <= i < s.len() && (#[trigger] s[i]).id == id
}

/// Idempotent insert: a message whose id is present leaves the table
/// unchanged; otherwise it is appended.
pub open spec fn insert_msg_spec(s: Seq<ChatMessageView>, m: ChatMessageView) -> Seq<
    ChatMessageView,
> {
    if has_message_id(s, m.id) {
        s
    } else {
        s.push(m)
    }
}

/// Message persistence is idempotent: inserting a message twice is the
/// same as inserting it once — in particular the row count is unchanged
/// by the second insert.
pub proof fn lemma_insert_message_idempotent(s: Seq<ChatMessageView>, m: ChatMessageView)
    ensures
        insert_msg_spec(insert_msg_spec(s, m), m) == insert_msg_spec(s, m),
        insert_msg_spec(insert_msg_spec(s, m), m).len() == insert_msg_spec(s, m).len(),
{
    let s1 = insert_msg_spec(s, m);
    if has_message_id(s, m.id) {
    } else {
        assert(s1[s.len() as int].id == m.id);
        assert(has_message_id(s1, m.id));
    }
}

/// First index of `s` whose roster jid is `jid`, or the length.
pub open spec fn first_jid_index(s: Seq<RosterItemView>, jid: Seq<char>) -> int
    decreases s.len(),
{
    if s.len() == 0 {
        0
    } else if s[0].jid == jid {
        0
    } else {
        1 + first_jid_index(s.drop_first(), jid)
    }
}

/// Upsert by jid: replace the matching item, or append.
pub open spec fn upsert_roster_spec(s: Seq<RosterItemView>, it: RosterItemView) -> Seq<
    RosterItemView,
> {
    let j = first_jid_index(s, it.jid);
    if j < s.len() {
        s.update(j, it)
    } else {
        s.push(it)
    }
}

/// Delete by jid: remove the matching item, if present.
pub open spec fn remove_roster_spec(s: Seq<RosterItemView>, jid: Seq<char>) -> Seq<
    RosterItemView,
> {
    let j = first_jid_index(s, jid);
    if j < s.len() {
        s.remove(j)
    } else {
        s
    }
}

pub proof fn lemma_first_jid_index_at(s: Seq<RosterItemView>, jid: Seq<char>, i: int)
    requires
        0 <= i <= s.len(),
        forall|k: int| 0 <= k < i ==> (#[trigger] s[k]).jid != jid,
        i < s.len() ==> s[i].jid == jid,
    ensures
        first_jid_index(s, jid) == i,
    decreases s.len(),
{
    if s.len() == 0 {
    } else if s[0].jid == jid {
    } else {
        assert forall|k: int| 0 <= k < i - 1 implies (#[trigger] s.drop_first()[k]).jid != jid by {
            assert(s[k + 1].jid != jid);
        }
        lemma_first_jid_index_at(s.drop_first(), jid, i - 1);
    }
}

/// No two messages share an id.
pub open spec fn unique_msg_ids(s: Seq<ChatMessageView>) -> bool {
    forall|i: int, j: int|
        0 <= i < j < s.len() ==> (#[trigger] s[i]).id != (#[trigger] s[j]).id
}

/// No two roster items share a jid.
pub open spec fn unique_roster_jids(s: Seq<RosterItemView>) -> bool {
    forall|i: int, j: int|
        0 <= i < j < s.len() ==> (#[trigger] s[i]).jid != (#[trigger] s[j]).jid
}

/// No two room records share a jid.
pub open spec fn unique_room_jids(s: Seq<MucRoomView>) -> bool {
    forall|i: int, j: int|
        0 <= i < j < s.len() ==> (#[trigger] s[i]).jid != (#[trigger] s[j]).jid
}

/// No two cursors share a jid.
pub open spec fn unique_cursor_jids(s: Seq<MamCursorView>) -> bool {
    forall|i: int, j: int|
        0 <= i < j < s.len() ==> (#[trigger] s[i]).jid != (#[trigger] s[j]).jid
}

/// Queue ids ascend strictly and stay below the allocation counter.
pub open spec fn queue_wf(q: Seq<QueueEntryView>, next: int) -> bool {
    &&& forall|i: int, j: int| 0 <= i < j < q.len() ==> (#[trigger] q[i]).id < (#[trigger] q[j]).id
    &&& forall|i: int| 0 <= i < q.len() ==> (#[trigger] q[i]).id < next
}

/// The persistent state of the core: five typed tables.
pub struct Store {
    messages: Vec<ChatMessage>,
    roster: Vec<RosterItem>,
    rooms: Vec<MucRoom>,
    queue: Vec<QueueEntry>,
    next_queue_id: u64,
    cursors: Vec<MamCursor>,
}

impl Store {
    pub closed spec fn messages(self) -> Seq<ChatMessageView> {
        msg_views(self.messages@)
    }

    pub closed spec fn roster(self) -> Seq<RosterItemView> {
        roster_views(self.roster@)
    }

    pub closed spec fn rooms(self) -> Seq<MucRoomView> {
        room_views(self.rooms@)
    }

    pub closed spec fn queue(self) -> Seq<QueueEntryView> {
        queue_views(self.queue@)
    }

    pub closed spec fn cursors(self) -> Seq<MamCursorView> {
        cursor_views(self.cursors@)
    }

    pub closed spec fn next_qid(self) -> int {
        self.next_queue_id as int
    }

    /// Table invariants: unique message ids, unique roster / room /
    /// cursor jids, and strictly ascending queue ids below the counter.
    pub open spec fn wf(self) -> bool {
        &&& unique_msg_ids(self.messages())
        &&& unique_roster_jids(self.roster())
        &&& unique_room_jids(self.rooms())
        &&& unique_cursor_jids(self.cursors())
        &&& queue_wf(self.queue(), self.next_qid())
    }

    /// An empty store.
    pub fn new() -> (r: Store)
        ensures
            r.wf(),
            r.messages().len() == 0,
            r.roster().len() == 0,
            r.rooms().len() == 0,
            r.queue().len() == 0,
            r.cursors().len() == 0,
            r.next_qid() == 1,
    {
        Store {
            messages: Vec::new(),
            roster: Vec::new(),
            rooms: Vec::new(),
            queue: Vec::new(),
            next_queue_id: 1,
            cursors: Vec::new(),
        }
    }

    /// Persist a message, idempotently on its id.
    #[verifier::loop_isolation(false)]
    pub fn insert_message(&mut self, m: &ChatMessage)
        requires
            old(self).wf(),
        ensures
            final(self).wf(),
            final(self).messages() == insert_msg_spec(old(self).messages(), m@),
            final(self).roster() == old(self).roster(),
            final(self).rooms() == old(self).rooms(),
            final(self).queue() == old(self).queue(),
            final(self).cursors() == old(self).cursors(),
            final(self).next_qid() == old(self).next_qid(),
    {
        let n = self.messages.len();
        let mut i: usize = 0;
        while i < n
            invariant
                *self == *old(self),
                n == self.messages@.len(),
                i <= n,
                forall|k: int| 0 <= k < i ==> (#[trigger] self.messages()[k]).id != m@.id,
            decreases n - i,
        {
            if str_eq(self.messages[i].id.as_str(), m.id.as_str()) {
                proof {
                    assert(self.messages()[i as int].id == m@.id);
                    assert(has_message_id(self.messages(), m@.id));
                }
                return ;
            }
            i += 1;
        }
        proof {
            assert(!has_message_id(self.messages(), m@.id));
        }
        let c = clone_message(m);
        let ghost before = self.messages@;
        self.messages.push(c);
        proof {
            assert(self.messages() =~= msg_views(before).push(m@));
            assert forall|i: int, j: int| 0 <= i < j < self.messages().len() implies (
            #[trigger] self.messages()[i]).id != (#[trigger] self.messages()[j]).id by {
                if j < before.len() {
                    assert(old(self).messages()[i].id != old(self).messages()[j].id);
                } else {
                    assert(old(self).messages()[i].id != m@.id);
                }
            }
            assert(unique_msg_ids(self.messages()));
        }
    }

    /// Number of stored messages.
    pub fn message_count(&self) -> (r: usize)
        ensures
            r == self.messages().len(),
    {
        self.messages.len()
    }

    /// Upsert a roster item by jid.
    #[verifier::loop_isolation(false)]
    pub fn upsert_roster_item(&mut self, it: &RosterItem)
        requires
            old(self).wf(),
        ensures
            final(self).wf(),
            final(self).roster() == upsert_roster_spec(old(self).roster(), it@),
            final(self).messages() == old(self).messages(),
            final(self).rooms() == old(self).rooms(),
            final(self).queue() == old(self).queue(),
            final(self).cursors() == old(self).cursors(),
            final(self).next_qid() == old(self).next_qid(),
    {
        let n = self.roster.len();
        let mut i: usize = 0;
        while i < n
            invariant
                *self == *old(self),
                n == self.roster@.len(),
                i <= n,
                forall|k: int| 0 <= k < i ==> (#[trigger] self.roster()[k]).jid != it@.jid,
            decreases n - i,
        {
            if str_eq(self.roster[i].jid.as_str(), it.jid.as_str()) {
                proof {
                    lemma_first_jid_index_at(self.roster(), it@.jid, i as int);
                }
                let ghost at = i as int;
                proof {
                    assert(old(self).roster()[at].jid == it@.jid);
                }
                let c = clone_roster_item(it);
                let ghost before = self.roster@;
                self.roster.set(i, c);
                proof {
                    assert(self.roster() =~= roster_views(before).update(at, it@));
                    assert forall|a: int, b: int| 0 <= a < b < self.roster().len() implies (
                    #[trigger] self.roster()[a]).jid != (#[trigger] self.roster()[b]).jid by {
                        assert(old(self).roster()[a].jid != old(self).roster()[b].jid);
                        assert(self.roster()[at].jid == old(self).roster()[at].jid);
                    }
                    assert(unique_roster_jids(self.roster()));
                }
                return ;
            }
            i += 1;
        }
        proof {
            lemma_first_jid_index_at(self.roster(), it@.jid, n as int);
        }
        let c = clone_roster_item(it);
        let ghost before = self.roster@;
        self.roster.push(c);
        proof {
            assert(self.roster() =~= roster_views(before).push(it@));
            assert forall|a: int, b: int| 0 <= a < b < self.roster().len() implies (
            #[trigger] self.roster()[a]).jid != (#[trigger] self.roster()[b]).jid by {
                if b < before.len() {
                    assert(old(self).roster()[a].jid != old(self).roster()[b].jid);
                } else {
                    assert(old(self).roster()[a].jid != it@.jid);
                }
            }
            assert(unique_roster_jids(self.roster()));
        }
    }

    /// Delete a roster item by jid; absent jids are a no-op.
    #[verifier::loop_isolation(false)]
    pub fn remove_roster_item(&mut self, jid: &str)
        requires
            old(self).wf(),
        ensures
            final(self).wf(),
            final(self).roster() == remove_roster_spec(old(self).roster(), jid@),
            final(self).messages() == old(self).messages(),
            final(self).rooms() == old(self).rooms(),
            final(self).queue() == old(self).queue(),
            final(self).cursors() == old(self).cursors(),
            final(self).next_qid() == old(self).next_qid(),
    {
        let n = self.roster.len();
        let mut i: usize = 0;
        while i < n
            invariant
                *self == *old(self),
                n == self.roster@.len(),
                i <= n,
                forall|k: int| 0 <= k < i ==> (#[trigger] self.roster()[k]).jid != jid@,
            decreases n - i,
        {
            if str_eq(self.roster[i].jid.as_str(), jid) {
                proof {
                    lemma_first_jid_index_at(self.roster(), jid@, i as int);
                }
                let ghost at = i as int;
                let ghost before = self.roster@;
                self.roster.remove(i);
                proof {
                    assert(self.roster() =~= roster_views(before).remove(at));
                    assert forall|a: int, b: int| 0 <= a < b < self.roster().len() implies (
                    #[trigger] self.roster()[a]).jid != (#[trigger] self.roster()[b]).jid by {
                        let a0 = if a < at { a } else { a + 1 };
                        let b0 = if b < at { b } else { b + 1 };
                        assert(self.roster()[a] == old(self).roster()[a0]);
                        assert(self.roster()[b] == old(self).roster()[b0]);
                        assert(old(self).roster()[a0].jid != old(self).roster()[b0].jid);
                    }
                    assert(unique_roster_jids(self.roster()));
                }
                return ;
            }
            i += 1;
        }
        proof {
            lemma_first_jid_index_at(self.roster(), jid@, n as int);
        }
    }

    /// Replace the whole roster with the incoming list, upserting each
    /// item in order (so a repeated jid keeps the later item).
    #[verifier::loop_isolation(false)]
    pub fn replace_roster(&mut self, items: &Vec<RosterItem>)
        requires
            old(self).wf(),
        ensures
            final(self).wf(),
            final(self).roster() == fold_roster(roster_views(items@)),
            final(self).messages() == old(self).messages(),
            final(self).rooms() == old(self).rooms(),
            final(self).queue() == old(self).queue(),
            final(self).cursors() == old(self).cursors(),
            final(self).next_qid() == old(self).next_qid(),
    {
        self.roster.clear();
        proof {
            assert(self.roster() =~= fold_roster(roster_views(items@.take(0))));
            assert(self.roster().len() == 0);
            assert(self.messages() == old(self).messages());
            assert(self.wf());
        }
        let n = items.len();
        let mut i: usize = 0;
        while i < n
            invariant
                old(self).wf(),
                n == items@.len(),
                i <= n,
                self.wf(),
                self.roster() == fold_roster(roster_views(items@.take(i as int))),
                self.messages() == old(self).messages(),
                self.rooms() == old(self).rooms(),
                self.queue() == old(self).queue(),
                self.cursors() == old(self).cursors(),
                self.next_qid() == old(self).next_qid(),
            decreases n - i,
        {
            self.upsert_roster_item(&items[i]);
            proof {
                assert(roster_views(items@.take(i + 1 as int)).drop_last() =~= roster_views(
                    items@.take(i as int),
                ));
                assert(roster_views(items@.take(i + 1 as int)).last() == items@[i as int]@);
            }
            i += 1;
        }
        proof {
            assert(items@.take(n as int) =~= items@);
        }
    }

    /// The roster, in insertion order.
    #[verifier::loop_isolation(false)]
    pub fn get_roster(&self) -> (r: Vec<RosterItem>)
        ensures
            roster_views(r@) == self.roster(),
    {
        let n = self.roster.len();
        let mut out: Vec<RosterItem> = Vec::new();
        let mut i: usize = 0;
        while i < n
            invariant
                n == self.roster@.len(),
                i <= n,
                out@.len() == i,
                forall|k: int| 0 <= k < i ==> (#[trigger] roster_views(out@)[k]) == self.roster()[k],
            decreases n - i,
        {
            let ghost prev = out@;
            out.push(clone_roster_item(&self.roster[i]));
            proof {
                assert forall|k: int| 0 <= k < i + 1 implies (#[trigger] roster_views(out@)[k])
                    == self.roster()[k] by {
                    if k < i {
                        assert(roster_views(prev)[k] == self.roster()[k]);
                        assert(out@[k] == prev[k]);
                    }
                }
            }
            i += 1;
        }
        proof {
            assert(roster_views(out@) =~= self.roster());
        }
        out
    }
}

/// The roster that results from upserting each item of `items`, in
/// order, into an empty table.
pub open spec fn fold_roster(items: Seq<RosterItemView>) -> Seq<RosterItemView>
    decreases items.len(),
{
    if items.len() == 0 {
        Seq::empty()
    } else {
        upsert_roster_spec(fold_roster(items.drop_last()), items.last())
    }
}


/// First index of `s` whose room jid is `jid`, or the length.
pub open spec fn first_room_index(s: Seq<MucRoomView>, jid: Seq<char>) -> int
    decreases s.len(),
{
    if s.len() == 0 {
        0
    } else if s[0].jid == jid {
        0
    } else {
        1 + first_room_index(s.drop_first(), jid)
    }
}

pub proof fn lemma_first_room_index_at(s: Seq<MucRoomView>, jid: Seq<char>, i: int)
    requires
        0 <= i <= s.len(),
        forall|k: int| 0 <= k < i ==> (#[trigger] s[k]).jid != jid,
        i < s.len() ==> s[i].jid == jid,
    ensures
        first_room_index(s, jid) == i,
    decreases s.len(),
{
    if s.len() == 0 {
    } else if s[0].jid == jid {
    } else {
        assert forall|k: int| 0 <= k < i - 1 implies (#[trigger] s.drop_first()[k]).jid != jid by {
            assert(s[k + 1].jid != jid);
        }
        lemma_first_room_index_at(s.drop_first(), jid, i - 1);
    }
}

/// First index of `s` whose cursor jid is `jid`, or the length.
pub open spec fn first_cursor_index(s: Seq<MamCursorView>, jid: Seq<char>) -> int
    decreases s.len(),
{
    if s.len() == 0 {
        0
    } else if s[0].jid == jid {
        0
    } else {
        1 + first_cursor_index(s.drop_first(), jid)
    }
}

pub proof fn lemma_first_cursor_index_at(s: Seq<MamCursorView>, jid: Seq<char>, i: int)
    requires
        0 <= i <= s.len(),
        forall|k: int| 0 <= k < i ==> (#[trigger] s[k]).jid != jid,
        i < s.len() ==> s[i].jid == jid,
    ensures
        first_cursor_index(s, jid) == i,
    decreases s.len(),
{
    if s.len() == 0 {
    } else if s[0].jid == jid {
    } else {
        assert forall|k: int| 0 <= k < i - 1 implies (#[trigger] s.drop_first()[k]).jid != jid by {
            assert(s[k + 1].jid != jid);
        }
        lemma_first_cursor_index_at(s.drop_first(), jid, i - 1);
    }
}

/// Upsert a room record by jid.
pub open spec fn upsert_room_spec(s: Seq<MucRoomView>, r: MucRoomView) -> Seq<MucRoomView> {
    let j = first_room_index(s, r.jid);
    if j < s.len() {
        s.update(j, r)
    } else {
        s.push(r)
    }
}

/// The archive cursor stored for `jid`, if any.
pub open spec fn cursor_of(s: Seq<MamCursorView>, jid: Seq<char>) -> Option<Seq<char>> {
    let j = first_cursor_index(s, jid);
    if j < s.len() {
        Option::Some(s[j].last_stanza_id)
    } else {
        Option::None
    }
}

/// Clone a queued command, keeping its view.
pub fn clone_command(c: &QueuedCommand) -> (r: QueuedCommand)
    ensures
        r@ == c@,
{
    match c {
        QueuedCommand::Message { msg_id, to, body } => QueuedCommand::Message {
            msg_id: msg_id.clone(),
            to: to.clone(),
            body: body.clone(),
        },
        QueuedCommand::RosterAdd { jid, name, groups } => {
            let r = QueuedCommand::RosterAdd {
                jid: jid.clone(),
                name: clone_opt_str(name),
                groups: clone_strs(groups),
            };
            proof {
                assert(r@ == c@);
            }
            r
        },
    }
}

/// Whether a stored message belongs to the conversation of `a` and `b`.
pub open spec fn msg_between(m: ChatMessageView, a: Seq<char>, b: Seq<char>) -> bool {
    (m.from == a && m.to == b) || (m.from == b && m.to == a)
}

pub open spec fn conv_pred(a: Seq<char>, b: Seq<char>) -> spec_fn(ChatMessageView) -> bool {
    |m: ChatMessageView| msg_between(m, a, b)
}

/// Whether a stored message is a groupchat message of `room`.
pub open spec fn room_msg_pred(room: Seq<char>) -> spec_fn(ChatMessageView) -> bool {
    |m: ChatMessageView| m.to == room && m.message_type == MessageType::Groupchat
}

/// First index of `s` whose message id is `id`, or the length.
pub open spec fn first_msg_id_index(s: Seq<ChatMessageView>, id: Seq<char>) -> int
    decreases s.len(),
{
    if s.len() == 0 {
        0
    } else if s[0].id == id {
        0
    } else {
        1 + first_msg_id_index(s.drop_first(), id)
    }
}

pub proof fn lemma_first_msg_id_index_at(s: Seq<ChatMessageView>, id: Seq<char>, i: int)
    requires
        0 <= i <= s.len(),
        forall|k: int| 0 <= k < i ==> (#[trigger] s[k]).id != id,
        i < s.len() ==> s[i].id == id,
    ensures
        first_msg_id_index(s, id) == i,
    decreases s.len(),
{
    if s.len() == 0 {
    } else if s[0].id == id {
    } else {
        assert forall|k: int| 0 <= k < i - 1 implies (#[trigger] s.drop_first()[k]).id != id by {
            assert(s[k + 1].id != id);
        }
        lemma_first_msg_id_index_at(s.drop_first(), id, i - 1);
    }
}

/// Everything before the message with id `before` (everything, when the
/// id is absent or no id was given).
pub open spec fn cut_spec(rel: Seq<ChatMessageView>, before: Option<Seq<char>>) -> Seq<
    ChatMessageView,
> {
    match before {
        Option::Some(id) => rel.take(first_msg_id_index(rel, id)),
        Option::None => rel,
    }
}

/// The newest `limit` entries of `cut`, newest first.
pub open spec fn page_of(cut: Seq<ChatMessageView>, limit: int) -> Seq<ChatMessageView> {
    Seq::new(
        if limit < cut.len() {
            limit as nat
        } else {
            cut.len()
        },
        |k: int| cut[cut.len() - 1 - k],
    )
}

pub open spec fn view_opt_str_ref(o: Option<&str>) -> Option<Seq<char>> {
    match o {
        Option::Some(s) => Option::Some(s@),
        Option::None => Option::None,
    }
}

impl Store {
    /// Replace or insert a room record, keyed by room jid.
    #[verifier::loop_isolation(false)]
    pub fn upsert_room(&mut self, room: &MucRoom)
        requires
            old(self).wf(),
        ensures
            final(self).wf(),
            final(self).rooms() == upsert_room_spec(old(self).rooms(), room@),
            final(self).messages() == old(self).messages(),
            final(self).roster() == old(self).roster(),
            final(self).queue() == old(self).queue(),
            final(self).cursors() == old(self).cursors(),
            final(self).next_qid() == old(self).next_qid(),
    {
        let n = self.rooms.len();
        let mut i: usize = 0;
        while i < n
            invariant
                *self == *old(self),
                n == self.rooms@.len(),
                i <= n,
                forall|k: int| 0 <= k < i ==> (#[trigger] self.rooms()[k]).jid != room@.jid,
            decreases n - i,
        {
            if str_eq(self.rooms[i].jid.as_str(), room.jid.as_str()) {
                proof {
                    lemma_first_room_index_at(self.rooms(), room@.jid, i as int);
                }
                let ghost at = i as int;
                let c = clone_room(room);
                let ghost before = self.rooms@;
                self.rooms.set(i, c);
                proof {
                    assert(self.rooms() =~= room_views(before).update(at, room@));
                    assert forall|a: int, b: int| 0 <= a < b < self.rooms().len() implies (
                    #[trigger] self.rooms()[a]).jid != (#[trigger] self.rooms()[b]).jid by {
                        assert(old(self).rooms()[a].jid != old(self).rooms()[b].jid);
                        assert(self.rooms()[at].jid == old(self).rooms()[at].jid);
                    }
                    assert(unique_room_jids(self.rooms()));
                }
                return ;
            }
            i += 1;
        }
        proof {
            lemma_first_room_index_at(self.rooms(), room@.jid, n as int);
        }
        let c = clone_room(room);
        let ghost before = self.rooms@;
        self.rooms.push(c);
        proof {
            assert(self.rooms() =~= room_views(before).push(room@));
            assert forall|a: int, b: int| 0 <= a < b < self.rooms().len() implies (
            #[trigger] self.rooms()[a]).jid != (#[trigger] self.rooms()[b]).jid by {
                if b < before.len() {
                    assert(old(self).rooms()[a].jid != old(self).rooms()[b].jid);
                } else {
                    assert(old(self).rooms()[a].jid != room@.jid);
                }
            }
            assert(unique_room_jids(self.rooms()));
        }
    }

    /// Room lookup by jid; the index is stable until the next mutation.
    #[verifier::loop_isolation(false)]
    fn room_index(&self, jid: &str) -> (r: Option<usize>)
        ensures
            match r {
                Some(i) => i < self.rooms().len() && self.rooms()[i as int].jid == jid@
                    && first_room_index(self.rooms(), jid@) == i,
                None => first_room_index(self.rooms(), jid@) == self.rooms().len(),
            },
    {
        let n = self.rooms.len();
        let mut i: usize = 0;
        while i < n
            invariant
                n == self.rooms@.len(),
                i <= n,
                forall|k: int| 0 <= k < i ==> (#[trigger] self.rooms()[k]).jid != jid@,
            decreases n - i,
        {
            if str_eq(self.rooms[i].jid.as_str(), jid) {
                proof {
                    lemma_first_room_index_at(self.rooms(), jid@, i as int);
                }
                return Some(i);
            }
            i += 1;
        }
        proof {
            lemma_first_room_index_at(self.rooms(), jid@, n as int);
        }
        None
    }

    /// Mark a room joined (server confirmation), recording the nick the
    /// server acknowledged; an unknown room is inserted.
    pub fn mark_room_joined(&mut self, room: &str, nick: &str)
        requires
            old(self).wf(),
        ensures
            final(self).wf(),
            final(self).rooms() == upsert_room_spec(
                old(self).rooms(),
                joined_room_view(old(self).rooms(), room@, nick@),
            ),
            final(self).messages() == old(self).messages(),
            final(self).roster() == old(self).roster(),
            final(self).queue() == old(self).queue(),
            final(self).cursors() == old(self).cursors(),
            final(self).next_qid() == old(self).next_qid(),
    {
        let subject: Option<String> = match self.room_index(room) {
            Some(i) => clone_opt_str(&self.rooms[i].subject),
            None => None,
        };
        let rec = MucRoom {
            jid: room.to_owned(),
            nick: nick.to_owned(),
            joined: true,
            subject,
        };
        self.upsert_room(&rec);
    }

    /// Mark a room left; an unknown room is a no-op.
    pub fn mark_room_left(&mut self, room: &str)
        requires
            old(self).wf(),
        ensures
            final(self).wf(),
            final(self).rooms() == left_rooms_spec(old(self).rooms(), room@),
            final(self).messages() == old(self).messages(),
            final(self).roster() == old(self).roster(),
            final(self).queue() == old(self).queue(),
            final(self).cursors() == old(self).cursors(),
            final(self).next_qid() == old(self).next_qid(),
    {
        match self.room_index(room) {
            Some(i) => {
                let rec = MucRoom {
                    jid: room.to_owned(),
                    nick: self.rooms[i].nick.clone(),
                    joined: false,
                    subject: clone_opt_str(&self.rooms[i].subject),
                };
                self.upsert_room(&rec);
                proof {
                    assert(self.rooms() =~= left_rooms_spec(old(self).rooms(), room@));
                }
            },
            None => {
                proof {
                    assert(self.rooms() =~= left_rooms_spec(old(self).rooms(), room@));
                }
            },
        }
    }

    /// Persist a room subject; an unknown room is inserted un-joined.
    pub fn set_room_subject(&mut self, room: &str, subject: &str)
        requires
            old(self).wf(),
        ensures
            final(self).wf(),
            final(self).rooms() == upsert_room_spec(
                old(self).rooms(),
                subject_room_view(old(self).rooms(), room@, subject@),
            ),
            final(self).messages() == old(self).messages(),
            final(self).roster() == old(self).roster(),
            final(self).queue() == old(self).queue(),
            final(self).cursors() == old(self).cursors(),
            final(self).next_qid() == old(self).next_qid(),
    {
        let rec = match self.room_index(room) {
            Some(i) => MucRoom {
                jid: room.to_owned(),
                nick: self.rooms[i].nick.clone(),
                joined: self.rooms[i].joined,
                subject: Some(subject.to_owned()),
            },
            None => MucRoom {
                jid: room.to_owned(),
                nick: String::new(),
                joined: false,
                subject: Some(subject.to_owned()),
            },
        };
        self.upsert_room(&rec);
    }

    /// The rooms whose join is confirmed, in insertion order.
    #[verifier::loop_isolation(false)]
    pub fn get_joined_rooms(&self) -> (r: Vec<MucRoom>)
        ensures
            room_views(r@) == self.rooms().filter(|v: MucRoomView| v.joined),
    {
        let n = self.rooms.len();
        let mut out: Vec<MucRoom> = Vec::new();
        let mut i: usize = 0;
        proof {
            reveal(Seq::filter);
            assert(room_views(out@) =~= self.rooms().take(0).filter(|v: MucRoomView| v.joined));
        }
        while i < n
            invariant
                n == self.rooms@.len(),
                i <= n,
                room_views(out@) == self.rooms().take(i as int).filter(|v: MucRoomView| v.joined),
            decreases n - i,
        {
            let ghost prev = out@;
            if self.rooms[i].joined {
                out.push(clone_room(&self.rooms[i]));
            }
            proof {
                reveal(Seq::filter);
                assert(self.rooms().take(i + 1).drop_last() =~= self.rooms().take(i as int));
                assert(self.rooms().take(i + 1).last() == self.rooms()[i as int]);
                if self.rooms()[i as int].joined {
                    assert(room_views(out@) =~= room_views(prev).push(self.rooms()[i as int]));
                }
            }
            i += 1;
        }
        proof {
            assert(self.rooms().take(n as int) =~= self.rooms());
        }
        out
    }

    /// The archive cursor for `jid`, if one was stored.
    #[verifier::loop_isolation(false)]
    pub fn get_cursor(&self, jid: &str) -> (r: Option<String>)
        ensures
            view_opt_str(r) == cursor_of(self.cursors(), jid@),
    {
        let n = self.cursors.len();
        let mut i: usize = 0;
        while i < n
            invariant
                n == self.cursors@.len(),
                i <= n,
                forall|k: int| 0 <= k < i ==> (#[trigger] self.cursors()[k]).jid != jid@,
            decreases n - i,
        {
            if str_eq(self.cursors[i].jid.as_str(), jid) {
                proof {
                    lemma_first_cursor_index_at(self.cursors(), jid@, i as int);
                }
                return Some(self.cursors[i].last_stanza_id.clone());
            }
            i += 1;
        }
        proof {
            lemma_first_cursor_index_at(self.cursors(), jid@, n as int);
        }
        None
    }

    /// Move the archive cursor of `jid` to `stanza_id`. Afterwards the
    /// stored cursor is exactly `stanza_id`.
    #[verifier::loop_isolation(false)]
    pub fn set_cursor(&mut self, jid: &str, stanza_id: &str, at_ms: i64)
        requires
            old(self).wf(),
        ensures
            final(self).wf(),
            cursor_of(final(self).cursors(), jid@) == Option::Some(stanza_id@),
            final(self).messages() == old(self).messages(),
            final(self).roster() == old(self).roster(),
            final(self).rooms() == old(self).rooms(),
            final(self).queue() == old(self).queue(),
            final(self).next_qid() == old(self).next_qid(),
            forall|j: Seq<char>|
                j != jid@ ==> #[trigger] cursor_of(final(self).cursors(), j) == cursor_of(
                    old(self).cursors(),
                    j,
                ),
    {
        let rec = MamCursor {
            jid: jid.to_owned(),
            last_stanza_id: stanza_id.to_owned(),
            last_sync_at: at_ms,
        };
        let n = self.cursors.len();
        let mut i: usize = 0;
        while i < n
            invariant
                *self == *old(self),
                n == self.cursors@.len(),
                i <= n,
                rec@.jid == jid@,
                rec@.last_stanza_id == stanza_id@,
                forall|k: int| 0 <= k < i ==> (#[trigger] self.cursors()[k]).jid != jid@,
            decreases n - i,
        {
            if str_eq(self.cursors[i].jid.as_str(), jid) {
                proof {
                    lemma_first_cursor_index_at(self.cursors(), jid@, i as int);
                }
                let ghost at = i as int;
                let ghost before = self.cursors@;
                self.cursors.set(i, rec);
                proof {
                    assert(self.cursors() =~= cursor_views(before).update(at, MamCursorView {
                        jid: jid@,
                        last_stanza_id: stanza_id@,
                        last_sync_at: at_ms as int,
                    }));
                    assert forall|a: int, b: int| 0 <= a < b < self.cursors().len() implies (
                    #[trigger] self.cursors()[a]).jid != (#[trigger] self.cursors()[b]).jid by {
                        assert(old(self).cursors()[a].jid != old(self).cursors()[b].jid);
                        assert(self.cursors()[at].jid == old(self).cursors()[at].jid);
                    }
                    assert(unique_cursor_jids(self.cursors()));
                    lemma_first_cursor_index_at(self.cursors(), jid@, at);
                    assert forall|j: Seq<char>| j != jid@ implies #[trigger] cursor_of(
                        self.cursors(),
                        j,
                    ) == cursor_of(old(self).cursors(), j) by {
                        lemma_cursor_of_update_other(old(self).cursors(), self.cursors(), at, j);
                    }
                }
                return ;
            }
            i += 1;
        }
        proof {
            lemma_first_cursor_index_at(self.cursors(), jid@, n as int);
        }
        let ghost before = self.cursors@;
        self.cursors.push(rec);
        proof {
            assert(self.cursors() =~= cursor_views(before).push(MamCursorView {
                jid: jid@,
                last_stanza_id: stanza_id@,
                last_sync_at: at_ms as int,
            }));
            assert forall|a: int, b: int| 0 <= a < b < self.cursors().len() implies (
            #[trigger] self.cursors()[a]).jid != (#[trigger] self.cursors()[b]).jid by {
                if b < before.len() {
                    assert(old(self).cursors()[a].jid != old(self).cursors()[b].jid);
                } else {
                    assert(old(self).cursors()[a].jid != jid@);
                }
            }
            assert(unique_cursor_jids(self.cursors()));
            lemma_first_cursor_index_at(self.cursors(), jid@, n as int);
            assert forall|j: Seq<char>| j != jid@ implies #[trigger] cursor_of(self.cursors(), j)
                == cursor_of(old(self).cursors(), j) by {
                lemma_cursor_of_push_other(old(self).cursors(), self.cursors(), j);
            }
        }
    }

    /// Append an outbound command to the offline queue; returns the
    /// allocated row id.
    pub fn enqueue(&mut self, stanza_type: StanzaType, command: QueuedCommand, now: i64) -> (r:
        u64)
        requires
            old(self).wf(),
            old(self).next_qid() < u64::MAX,
        ensures
            final(self).wf(),
            r == old(self).next_qid(),
            final(self).next_qid() == old(self).next_qid() + 1,
            final(self).queue() == old(self).queue().push(QueueEntryView {
                id: old(self).next_qid(),
                stanza_type,
                command: command@,
                status: QueueStatus::Pending,
                enqueued_at: now as int,
            }),
            final(self).messages() == old(self).messages(),
            final(self).roster() == old(self).roster(),
            final(self).rooms() == old(self).rooms(),
            final(self).cursors() == old(self).cursors(),
    {
        let id = self.next_queue_id;
        let ghost cmdv = command@;
        let entry = QueueEntry {
            id,
            stanza_type,
            command,
            status: QueueStatus::Pending,
            enqueued_at: now,
        };
        let ghost before = self.queue@;
        self.queue.push(entry);
        self.next_queue_id = id + 1;
        proof {
            assert(self.queue() =~= queue_views(before).push(QueueEntryView {
                id: id as int,
                stanza_type,
                command: cmdv,
                status: QueueStatus::Pending,
                enqueued_at: now as int,
            }));
            assert forall|a: int, b: int| 0 <= a < b < self.queue().len() implies (
            #[trigger] self.queue()[a]).id < (#[trigger] self.queue()[b]).id by {
                if b < before.len() {
                    assert(old(self).queue()[a].id < old(self).queue()[b].id);
                } else {
                    assert(old(self).queue()[a].id < old(self).next_qid());
                }
            }
            assert forall|a: int| 0 <= a < self.queue().len() implies (#[trigger] self.queue()[a]).id
                < self.next_qid() by {
                if a < before.len() {
                    assert(old(self).queue()[a].id < old(self).next_qid());
                }
            }
            assert(queue_wf(self.queue(), self.next_qid()));
        }
        id
    }

    /// Number of queue rows.
    pub fn queue_len(&self) -> (r: usize)
        ensures
            r == self.queue().len(),
    {
        self.queue.len()
    }

    /// The queue row at `i`.
    pub fn queue_get(&self, i: usize) -> (r: &QueueEntry)
        requires
            i < self.queue().len(),
        ensures
            r@ == self.queue()[i as int],
    {
        &self.queue[i]
    }

    /// Set the status of the queue row at `i`.
    pub fn set_queue_status(&mut self, i: usize, st: QueueStatus)
        requires
            old(self).wf(),
            i < old(self).queue().len(),
        ensures
            final(self).wf(),
            final(self).queue() == old(self).queue().update(i as int, QueueEntryView {
                status: st,
                ..old(self).queue()[i as int]
            }),
            final(self).messages() == old(self).messages(),
            final(self).roster() == old(self).roster(),
            final(self).rooms() == old(self).rooms(),
            final(self).cursors() == old(self).cursors(),
            final(self).next_qid() == old(self).next_qid(),
    {
        let e = &self.queue[i];
        let updated = QueueEntry {
            id: e.id,
            stanza_type: e.stanza_type,
            command: clone_command(&e.command),
            status: st,
            enqueued_at: e.enqueued_at,
        };
        let ghost before = self.queue@;
        self.queue.set(i, updated);
        proof {
            assert(self.queue() =~= queue_views(before).update(i as int, QueueEntryView {
                status: st,
                ..queue_views(before)[i as int]
            }));
            assert forall|a: int, b: int| 0 <= a < b < self.queue().len() implies (
            #[trigger] self.queue()[a]).id < (#[trigger] self.queue()[b]).id by {
                assert(old(self).queue()[a].id < old(self).queue()[b].id);
            }
            assert forall|a: int| 0 <= a < self.queue().len() implies (#[trigger] self.queue()[a]).id
                < self.next_qid() by {
                assert(old(self).queue()[a].id < old(self).next_qid());
            }
            assert(queue_wf(self.queue(), self.next_qid()));
        }
    }

    /// At most `limit` messages between `own` and `peer`, newest first,
    /// optionally only those older than the message with id `before_id`.
    #[verifier::loop_isolation(false)]
    pub fn query_conversation(
        &self,
        own: &str,
        peer: &str,
        limit: usize,
        before_id: Option<&str>,
    ) -> (r: Vec<ChatMessage>)
        ensures
            msg_views(r@) == page_of(
                cut_spec(
                    self.messages().filter(conv_pred(own@, peer@)),
                    view_opt_str_ref(before_id),
                ),
                limit as int,
            ),
    {
        let n = self.messages.len();
        let mut rel: Vec<ChatMessage> = Vec::new();
        let mut i: usize = 0;
        proof {
            reveal(Seq::filter);
            assert(msg_views(rel@) =~= self.messages().take(0).filter(conv_pred(own@, peer@)));
        }
        while i < n
            invariant
                n == self.messages@.len(),
                i <= n,
                msg_views(rel@) == self.messages().take(i as int).filter(conv_pred(own@, peer@)),
            decreases n - i,
        {
            let ghost prev = rel@;
            let m = &self.messages[i];
            if (str_eq(m.from.as_str(), own) && str_eq(m.to.as_str(), peer)) || (str_eq(
                m.from.as_str(),
                peer,
            ) && str_eq(m.to.as_str(), own)) {
                rel.push(clone_message(m));
            }
            proof {
                reveal(Seq::filter);
                assert(self.messages().take(i + 1).drop_last() =~= self.messages().take(i as int));
                assert(self.messages().take(i + 1).last() == self.messages()[i as int]);
                if msg_between(self.messages()[i as int], own@, peer@) {
                    assert(msg_views(rel@) =~= msg_views(prev).push(self.messages()[i as int]));
                }
            }
            i += 1;
        }
        proof {
            assert(self.messages().take(n as int) =~= self.messages());
        }
        paginate(rel, limit, before_id)
    }

    /// At most `limit` groupchat messages of `room`, newest first,
    /// optionally only those older than the message with id `before_id`.
    #[verifier::loop_isolation(false)]
    pub fn query_room_messages(&self, room: &str, limit: usize, before_id: Option<&str>) -> (r:
        Vec<ChatMessage>)
        ensures
            msg_views(r@) == page_of(
                cut_spec(self.messages().filter(room_msg_pred(room@)), view_opt_str_ref(before_id)),
                limit as int,
            ),
    {
        let n = self.messages.len();
        let mut rel: Vec<ChatMessage> = Vec::new();
        let mut i: usize = 0;
        proof {
            reveal(Seq::filter);
            assert(msg_views(rel@) =~= self.messages().take(0).filter(room_msg_pred(room@)));
        }
        while i < n
            invariant
                n == self.messages@.len(),
                i <= n,
                msg_views(rel@) == self.messages().take(i as int).filter(room_msg_pred(room@)),
            decreases n - i,
        {
            let ghost prev = rel@;
            let m = &self.messages[i];
            let is_group = match m.message_type {
                MessageType::Groupchat => true,
                _ => false,
            };
            if str_eq(m.to.as_str(), room) && is_group {
                rel.push(clone_message(m));
            }
            proof {
                reveal(Seq::filter);
                assert(self.messages().take(i + 1).drop_last() =~= self.messages().take(i as int));
                assert(self.messages().take(i + 1).last() == self.messages()[i as int]);
                if room_msg_pred(room@)(self.messages()[i as int]) {
                    assert(msg_views(rel@) =~= msg_views(prev).push(self.messages()[i as int]));
                }
            }
            i += 1;
        }
        proof {
            assert(self.messages().take(n as int) =~= self.messages());
        }
        paginate(rel, limit, before_id)
    }
}

/// The room list after a departure: the room's record, if present, is
/// marked un-joined.
pub open spec fn left_rooms_spec(s: Seq<MucRoomView>, room: Seq<char>) -> Seq<MucRoomView> {
    let j = first_room_index(s, room);
    if j < s.len() {
        s.update(j, MucRoomView { joined: false, ..s[j] })
    } else {
        s
    }
}

/// The record a confirmed join writes: the acknowledged nick, joined,
/// and the previously stored subject, if any.
pub open spec fn joined_room_view(s: Seq<MucRoomView>, room: Seq<char>, nick: Seq<char>)
    -> MucRoomView {
    let j = first_room_index(s, room);
    MucRoomView {
        jid: room,
        nick,
        joined: true,
        subject: if j < s.len() {
            s[j].subject
        } else {
            Option::None
        },
    }
}

/// The record a subject change writes: the stored nick and joined flag
/// (or an un-joined placeholder) with the new subject.
pub open spec fn subject_room_view(s: Seq<MucRoomView>, room: Seq<char>, subject: Seq<char>)
    -> MucRoomView {
    let j = first_room_index(s, room);
    MucRoomView {
        jid: room,
        nick: if j < s.len() {
            s[j].nick
        } else {
            Seq::empty()
        },
        joined: if j < s.len() {
            s[j].joined
        } else {
            false
        },
        subject: Option::Some(subject),
    }
}

proof fn lemma_cursor_of_update_other(
    s0: Seq<MamCursorView>,
    s1: Seq<MamCursorView>,
    at: int,
    j: Seq<char>,
)
    requires
        0 <= at < s0.len(),
        s1.len() == s0.len(),
        forall|k: int| 0 <= k < s0.len() && k != at ==> #[trigger] s1[k] == s0[k],
        s1[at].jid == s0[at].jid,
        j != s0[at].jid,
    ensures
        cursor_of(s1, j) == cursor_of(s0, j),
    decreases s0.len(),
{
    lemma_first_cursor_eq(s0, s1, j);
    let f = first_cursor_index(s0, j);
    lemma_first_cursor_bounds(s0, j);
    if f < s0.len() {
        assert(s0[f].jid == j);
        assert(f != at);
    }
}

proof fn lemma_first_cursor_bounds(s: Seq<MamCursorView>, jid: Seq<char>)
    ensures
        0 <= first_cursor_index(s, jid) <= s.len(),
        first_cursor_index(s, jid) < s.len() ==> s[first_cursor_index(s, jid)].jid == jid,
        forall|k: int| 0 <= k < first_cursor_index(s, jid) ==> (#[trigger] s[k]).jid != jid,
    decreases s.len(),
{
    if s.len() > 0 && s[0].jid != jid {
        lemma_first_cursor_bounds(s.drop_first(), jid);
        assert forall|k: int| 0 <= k < first_cursor_index(s, jid) implies (#[trigger] s[k]).jid
            != jid by {
            if k > 0 {
                assert(s.drop_first()[k - 1].jid != jid);
            }
        }
    }
}

proof fn lemma_first_cursor_eq(s0: Seq<MamCursorView>, s1: Seq<MamCursorView>, j: Seq<char>)
    requires
        s1.len() == s0.len(),
        forall|k: int| 0 <= k < s0.len() ==> (#[trigger] s1[k]).jid == s0[k].jid,
    ensures
        first_cursor_index(s1, j) == first_cursor_index(s0, j),
    decreases s0.len(),
{
    if s0.len() > 0 && s0[0].jid != j {
        let t1 = s1.drop_first();
        assert forall|k: int| 0 <= k < s0.drop_first().len() implies (#[trigger] t1[k]).jid
            == s0.drop_first()[k].jid by {
            assert(s1[k + 1].jid == s0[k + 1].jid);
        }
        lemma_first_cursor_eq(s0.drop_first(), s1.drop_first(), j);
    }
}

proof fn lemma_cursor_of_push_other(s0: Seq<MamCursorView>, s1: Seq<MamCursorView>, j: Seq<char>)
    requires
        s1.len() == s0.len() + 1,
        forall|k: int| 0 <= k < s0.len() ==> #[trigger] s1[k] == s0[k],
        j != s1[s0.len() as int].jid,
    ensures
        cursor_of(s1, j) == cursor_of(s0, j),
{
    lemma_first_cursor_bounds(s0, j);
    lemma_first_cursor_bounds(s1, j);
    let f0 = first_cursor_index(s0, j);
    let f1 = first_cursor_index(s1, j);
    if f0 < s0.len() {
        lemma_first_cursor_at_gen(s1, j, f0);
    } else {
        lemma_first_cursor_at_gen(s1, j, s1.len() as int);
    }
}

proof fn lemma_first_cursor_at_gen(s: Seq<MamCursorView>, jid: Seq<char>, i: int)
    requires
        0 <= i <= s.len(),
        forall|k: int| 0 <= k < i ==> (#[trigger] s[k]).jid != jid,
        i < s.len() ==> s[i].jid == jid,
    ensures
        first_cursor_index(s, jid) == i,
{
    lemma_first_cursor_index_at(s, jid, i);
}

/// Take the newest `limit` of everything before `before_id`, newest
/// first.
#[verifier::loop_isolation(false)]
fn paginate(rel: Vec<ChatMessage>, limit: usize, before_id: Option<&str>) -> (r: Vec<ChatMessage>)
    ensures
        msg_views(r@) == page_of(
            cut_spec(msg_views(rel@), view_opt_str_ref(before_id)),
            limit as int,
        ),
{
    let reln = rel.len();
    let cutlen: usize = match before_id {
        Some(b) => {
            let mut k: usize = 0;
            while k < reln && !str_eq(rel[k].id.as_str(), b)
                invariant
                    reln == rel@.len(),
                    k <= reln,
                    forall|t: int| 0 <= t < k ==> (#[trigger] msg_views(rel@)[t]).id != b@,
                decreases reln - k,
            {
                k += 1;
            }
            proof {
                if k < reln {
                    lemma_first_msg_id_index_at(msg_views(rel@), b@, k as int);
                } else {
                    lemma_first_msg_id_index_at(msg_views(rel@), b@, reln as int);
                }
            }
            k
        },
        None => reln,
    };
    let ghost cut = cut_spec(msg_views(rel@), view_opt_str_ref(before_id));
    proof {
        assert(cut =~= msg_views(rel@).take(cutlen as int));
    }
    let count: usize = if limit < cutlen {
        limit
    } else {
        cutlen
    };
    let mut out: Vec<ChatMessage> = Vec::new();
    let mut k: usize = 0;
    while k < count
        invariant
            reln == rel@.len(),
            cutlen <= reln,
            count <= cutlen,
            cut == cut_spec(msg_views(rel@), view_opt_str_ref(before_id)),
            cut == msg_views(rel@).take(cutlen as int),
            k <= count,
            out@.len() == k,
            forall|t: int| 0 <= t < k ==> #[trigger] msg_views(out@)[t] == cut[cutlen - 1 - t],
        decreases count - k,
    {
        let ghost prev = out@;
        out.push(clone_message(&rel[cutlen - 1 - k]));
        proof {
            assert forall|t: int| 0 <= t < k + 1 implies #[trigger] msg_views(out@)[t]
                == cut[cutlen - 1 - t] by {
                if t < k {
                    assert(msg_views(prev)[t] == cut[cutlen - 1 - t]);
                    assert(out@[t] == prev[t]);
                }
            }
        }
        k += 1;
    }
    proof {
        assert(msg_views(out@) =~= page_of(cut, limit as int));
    }
    out
}


/// Insert each message of `ms`, in order, idempotently.
pub open spec fn insert_msgs_spec(s: Seq<ChatMessageView>, ms: Seq<ChatMessageView>) -> Seq<
    ChatMessageView,
>
    decreases ms.len(),
{
    if ms.len() == 0 {
        s
    } else {
        insert_msg_spec(insert_msgs_spec(s, ms.drop_last()), ms.last())
    }
}

/// Clone a list of messages, keeping its views.
pub fn clone_messages(v: &Vec<ChatMessage>) -> (r: Vec<ChatMessage>)
    ensures
        msg_views(r@) == msg_views(v@),
{
    let n = v.len();
    let mut out: Vec<ChatMessage> = Vec::new();
    let mut i: usize = 0;
    while i < n
        invariant
            n == v@.len(),
            i <= n,
            out@.len() == i,
            forall|k: int| 0 <= k < i ==> (#[trigger] out@[k])@ == v@[k]@,
        decreases n - i,
    {
        out.push(clone_message(&v[i]));
        i += 1;
    }
    proof {
        assert(msg_views(out@) =~= msg_views(v@));
    }
    out
}

/// First stored message that involves `jid`, or the length.
pub open spec fn first_involving_index(s: Seq<ChatMessageView>, jid: Seq<char>) -> int
    decreases s.len(),
{
    if s.len() == 0 {
        0
    } else if s[0].from == jid || s[0].to == jid {
        0
    } else {
        1 + first_involving_index(s.drop_first(), jid)
    }
}

/// The id of the oldest stored message involving `jid`, if any.
pub open spec fn oldest_involving(s: Seq<ChatMessageView>, jid: Seq<char>) -> Option<Seq<char>> {
    let j = first_involving_index(s, jid);
    if j < s.len() {
        Option::Some(s[j].id)
    } else {
        Option::None
    }
}

proof fn lemma_first_involving_index_at(s: Seq<ChatMessageView>, jid: Seq<char>, i: int)
    requires
        0 <= i <= s.len(),
        forall|k: int| 0 <= k < i ==> !((#[trigger] s[k]).from == jid || s[k].to == jid),
        i < s.len() ==> (s[i].from == jid || s[i].to == jid),
    ensures
        first_involving_index(s, jid) == i,
    decreases s.len(),
{
    if s.len() == 0 {
    } else if s[0].from == jid || s[0].to == jid {
    } else {
        assert forall|k: int| 0 <= k < i - 1 implies !((#[trigger] s.drop_first()[k]).from == jid
            || s.drop_first()[k].to == jid) by {
            assert(!(s[k + 1].from == jid || s[k + 1].to == jid));
        }
        lemma_first_involving_index_at(s.drop_first(), jid, i - 1);
    }
}

impl Store {
    /// The id of the oldest stored message sent to or by `jid`.
    #[verifier::loop_isolation(false)]
    pub fn oldest_message_id_with(&self, jid: &str) -> (r: Option<String>)
        ensures
            view_opt_str(r) == oldest_involving(self.messages(), jid@),
    {
        let n = self.messages.len();
        let mut i: usize = 0;
        while i < n
            invariant
                n == self.messages@.len(),
                i <= n,
                forall|k: int|
                    0 <= k < i ==> !((#[trigger] self.messages()[k]).from == jid@
                        || self.messages()[k].to == jid@),
            decreases n - i,
        {
            if str_eq(self.messages[i].from.as_str(), jid) || str_eq(
                self.messages[i].to.as_str(),
                jid,
            ) {
                proof {
                    lemma_first_involving_index_at(self.messages(), jid@, i as int);
                }
                return Some(self.messages[i].id.clone());
            }
            i += 1;
        }
        proof {
            lemma_first_involving_index_at(self.messages(), jid@, n as int);
        }
        None
    }
}

} // verus!
