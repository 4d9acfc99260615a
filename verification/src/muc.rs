//! Multi-user chat: persistent room records, an in-memory occupant map
//! keyed by (room, nick), and groupchat message persistence through the
//! shared message table.

use vstd::prelude::*;

use crate::bus::{published_any, BroadcastEventBus};
use crate::channel::Channel;
use crate::error::EventBusError;
use crate::event::{
    clone_occupant, Event, EventPayload, EventSource, ChatMessage, MucOccupant, MucOccupantView,
    MucRole,
};
use crate::store::{
    cut_spec, insert_msg_spec, joined_room_view, left_rooms_spec, msg_views, page_of,
    room_msg_pred, room_views, subject_room_view, upsert_room_spec, view_opt_str_ref, MucRoom,
    MucRoomView, Store,
};
use crate::strings::str_eq;

verus! {

/// One occupant of one room.
#[derive(Debug, Clone, PartialEq, Eq)]
pub struct OccupantEntry {
    pub room: String,
    pub occupant: MucOccupant,
}

pub struct OccupantEntryView {
    pub room: Seq<char>,
    pub occupant: MucOccupantView,
}

impl View for OccupantEntry {
    type V = OccupantEntryView;

    open spec fn view(&self) -> OccupantEntryView {
        OccupantEntryView { room: self.room@, occupant: self.occupant@ }
    }
}

pub open spec fn occ_views(s: Seq<OccupantEntry>) -> Seq<OccupantEntryView> {
    s.map_values(|e: OccupantEntry| e@)
}

/// First entry of room `room` with nick `nick`, or the length.
pub open spec fn first_occ_index(s: Seq<OccupantEntryView>, room: Seq<char>, nick: Seq<char>)
    -> int
    decreases s.len(),
{
    if s.len() == 0 {
        0
    } else if s[0].room == room && s[0].occupant.nick == nick {
        0
    } else {
        1 + first_occ_index(s.drop_first(), room, nick)
    }
}

proof fn lemma_first_occ_index_at(s: Seq<OccupantEntryView>, room: Seq<char>, nick: Seq<char>, i: int)
    requires
        0 <= i <= s.len(),
        forall|k: int|
            0 <= k < i ==> !((#[trigger] s[k]).room == room && s[k].occupant.nick == nick),
        i < s.len() ==> s[i].room == room && s[i].occupant.nick == nick,
    ensures
        first_occ_index(s, room, nick) == i,
    decreases s.len(),
{
    if s.len() == 0 {
    } else if s[0].room == room && s[0].occupant.nick == nick {
    } else {
        assert forall|k: int| 0 <= k < i - 1 implies !((#[trigger] s.drop_first()[k]).room == room
            && s.drop_first()[k].occupant.nick == nick) by {
            assert(!(s[k + 1].room == room && s[k + 1].occupant.nick == nick));
        }
        lemma_first_occ_index_at(s.drop_first(), room, nick, i - 1);
    }
}

/// Upsert an occupant under (room, nick).
pub open spec fn upsert_occ_spec(s: Seq<OccupantEntryView>, e: OccupantEntryView) -> Seq<
    OccupantEntryView,
> {
    let j = first_occ_index(s, e.room, e.occupant.nick);
    if j < s.len() {
        s.update(j, e)
    } else {
        s.push(e)
    }
}

/// Remove the occupant (room, nick), if present.
pub open spec fn remove_occ_spec(s: Seq<OccupantEntryView>, room: Seq<char>, nick: Seq<char>)
    -> Seq<OccupantEntryView> {
    let j = first_occ_index(s, room, nick);
    if j < s.len() {
        s.remove(j)
    } else {
        s
    }
}

/// The entries that stay when a room's occupants are reset.
pub open spec fn clear_room_spec(s: Seq<OccupantEntryView>, room: Seq<char>) -> Seq<
    OccupantEntryView,
>
    decreases s.len(),
{
    if s.len() == 0 {
        Seq::empty()
    } else {
        let prefix = clear_room_spec(s.drop_last(), room);
        if s.last().room != room {
            prefix.push(s.last())
        } else {
            prefix
        }
    }
}

/// The occupants of one room, in arrival order.
pub open spec fn occupants_of(s: Seq<OccupantEntryView>, room: Seq<char>) -> Seq<MucOccupantView>
    decreases s.len(),
{
    if s.len() == 0 {
        Seq::empty()
    } else {
        let prefix = occupants_of(s.drop_last(), room);
        if s.last().room == room {
            prefix.push(s.last().occupant)
        } else {
            prefix
        }
    }
}

/// Views of a list of occupants.
pub open spec fn occupant_views(s: Seq<MucOccupant>) -> Seq<MucOccupantView> {
    s.map_values(|o: MucOccupant| o@)
}

/// The join request for a room.
pub open spec fn muc_join_event(e: Event, room: Seq<char>, nick: Seq<char>) -> bool {
    &&& e.channel@ == "ui.muc.join"@
    &&& e.payload matches EventPayload::MucJoinRequested { room: r2, nick: n2 } && r2@ == room
        && n2@ == nick
}

/// The groupchat send request.
pub open spec fn muc_send_event(e: Event, room: Seq<char>, body: Seq<char>) -> bool {
    &&& e.channel@ == "ui.muc.send"@
    &&& e.payload matches EventPayload::MucSendRequested { room: r2, body: b2 } && r2@ == room
        && b2@ == body
}

/// Which payloads this manager reacts to.
pub open spec fn muc_relevant(p: EventPayload) -> bool {
    ||| p is MucJoined
    ||| p is MucLeft
    ||| p is MucOccupantChanged
    ||| p is MucSubjectChanged
    ||| p is MucMessageReceived
}

/// Room membership and occupant tracking.
pub struct MucManager {
    occupants: Vec<OccupantEntry>,
}

impl MucManager {
    pub closed spec fn occupants_spec(self) -> Seq<OccupantEntryView> {
        occ_views(self.occupants@)
    }

    /// No two entries share (room, nick).
    pub open spec fn wf(self) -> bool {
        forall|i: int, j: int|
            0 <= i < j < self.occupants_spec().len() ==> !((#[trigger] self.occupants_spec()[i]).room == (#[trigger] self.occupants_spec()[j]).room && self.occupants_spec()[i].occupant.nick == self.occupants_spec()[j].occupant.nick)
    }

    pub fn new() -> (r: MucManager)
        ensures
            r.wf(),
            r.occupants_spec().len() == 0,
    {
        MucManager { occupants: Vec::new() }
    }

    /// Persist the room (un-joined, pending confirmation) and ask the
    /// server to join it.
    pub fn join_room(
        &self,
        store: &mut Store,
        bus: &mut BroadcastEventBus,
        room: &str,
        nick: &str,
    ) -> (r: Result<(), EventBusError>)
        requires
            old(store).wf(),
            old(bus).inv(),
            old(bus).room(1),
        ensures
            final(store).wf(),
            final(bus).inv(),
            r is Ok,
            final(store).rooms() == upsert_room_spec(
                old(store).rooms(),
                MucRoomView { jid: room@, nick: nick@, joined: false, subject: Option::None },
            ),
            final(store).messages() == old(store).messages(),
            final(store).roster() == old(store).roster(),
            final(store).queue() == old(store).queue(),
            final(store).cursors() == old(store).cursors(),
            final(store).next_qid() == old(store).next_qid(),
            exists|e: Event|
                #[trigger] published_any(*old(bus), *final(bus), e) && muc_join_event(
                    e,
                    room@,
                    nick@,
                ),
    {
        let rec = MucRoom {
            jid: room.to_owned(),
            nick: nick.to_owned(),
            joined: false,
            subject: None,
        };
        store.upsert_room(&rec);
        let ev = Event::new(
            Channel::raw("ui.muc.join".to_owned()),
            EventSource::System("muc".to_owned()),
            EventPayload::MucJoinRequested { room: room.to_owned(), nick: nick.to_owned() },
        );
        let ghost evg = ev;
        let _ = bus.publish(ev);
        proof {
            assert(published_any(*old(bus), *bus, evg) && muc_join_event(evg, room@, nick@));
        }
        Ok(())
    }

    /// Emit a groupchat send request. Unlike one-to-one messages,
    /// groupchat is not buffered offline: the room presence is needed
    /// anyway.
    pub fn send_message(&self, bus: &mut BroadcastEventBus, room: &str, body: &str) -> (r: Result<
        (),
        EventBusError,
    >)
        requires
            old(bus).inv(),
            old(bus).room(1),
        ensures
            final(bus).inv(),
            r is Ok,
            exists|e: Event|
                #[trigger] published_any(*old(bus), *final(bus), e) && muc_send_event(
                    e,
                    room@,
                    body@,
                ),
    {
        let ev = Event::new(
            Channel::raw("ui.muc.send".to_owned()),
            EventSource::System("muc".to_owned()),
            EventPayload::MucSendRequested { room: room.to_owned(), body: body.to_owned() },
        );
        let ghost evg = ev;
        let _ = bus.publish(ev);
        proof {
            assert(published_any(*old(bus), *bus, evg) && muc_send_event(evg, room@, body@));
        }
        Ok(())
    }

    /// React to one bus event: a confirmed join marks the room joined
    /// and resets its occupants; a departure marks it un-joined and
    /// clears them; occupant changes upsert by nick, with role `none`
    /// removing the occupant; subject changes are persisted; groupchat
    /// messages are persisted idempotently in the shared message table.
    pub fn handle_event(&mut self, store: &mut Store, bus: &mut BroadcastEventBus, event: &Event)
        requires
            old(self).wf(),
            old(store).wf(),
            old(bus).inv(),
        ensures
            final(self).wf(),
            final(store).wf(),
            final(bus).inv(),
            *final(bus) == *old(bus),
            final(store).roster() == old(store).roster(),
            final(store).queue() == old(store).queue(),
            final(store).cursors() == old(store).cursors(),
            final(store).next_qid() == old(store).next_qid(),
            event.payload matches EventPayload::MucJoined { room, nick } ==> {
                &&& final(store).rooms() == upsert_room_spec(
                    old(store).rooms(),
                    joined_room_view(old(store).rooms(), room@, nick@),
                )
                &&& final(self).occupants_spec() == clear_room_spec(
                    old(self).occupants_spec(),
                    room@,
                )
                &&& final(store).messages() == old(store).messages()
            },
            event.payload matches EventPayload::MucLeft { room } ==> {
                &&& final(store).rooms() == left_rooms_spec(old(store).rooms(), room@)
                &&& final(self).occupants_spec() == clear_room_spec(
                    old(self).occupants_spec(),
                    room@,
                )
                &&& final(store).messages() == old(store).messages()
            },
            event.payload matches EventPayload::MucOccupantChanged { room, occupant } ==> {
                &&& occupant.role != MucRole::NoRole ==> final(self).occupants_spec()
                    == upsert_occ_spec(
                    old(self).occupants_spec(),
                    OccupantEntryView { room: room@, occupant: occupant@ },
                )
                &&& occupant.role == MucRole::NoRole ==> final(self).occupants_spec()
                    == remove_occ_spec(old(self).occupants_spec(), room@, occupant@.nick)
                &&& final(store).rooms() == old(store).rooms()
                &&& final(store).messages() == old(store).messages()
            },
            event.payload matches EventPayload::MucSubjectChanged { room, subject } ==> {
                &&& final(store).rooms() == upsert_room_spec(
                    old(store).rooms(),
                    subject_room_view(old(store).rooms(), room@, subject@),
                )
                &&& *final(self) == *old(self)
                &&& final(store).messages() == old(store).messages()
            },
            event.payload matches EventPayload::MucMessageReceived { room, message } ==> {
                &&& final(store).messages() == insert_msg_spec(old(store).messages(), message@)
                &&& final(store).rooms() == old(store).rooms()
                &&& *final(self) == *old(self)
            },
            !muc_relevant(event.payload) ==> *final(self) == *old(self) && *final(store) == *old(
                store,
            ),
    {
        match &event.payload {
            EventPayload::MucJoined { room, nick } => {
                store.mark_room_joined(room.as_str(), nick.as_str());
                self.clear_room(room.as_str());
            },
            EventPayload::MucLeft { room } => {
                store.mark_room_left(room.as_str());
                self.clear_room(room.as_str());
            },
            EventPayload::MucOccupantChanged { room, occupant } => {
                let leaves = matches!(occupant.role, MucRole::NoRole);
                if leaves {
                    self.remove_occupant(room.as_str(), occupant.nick.as_str());
                } else {
                    let entry = OccupantEntry {
                        room: room.clone(),
                        occupant: clone_occupant(occupant),
                    };
                    self.upsert_occupant(entry);
                }
            },
            EventPayload::MucSubjectChanged { room, subject } => {
                store.set_room_subject(room.as_str(), subject.as_str());
            },
            EventPayload::MucMessageReceived { message, .. } => {
                store.insert_message(message);
            },
            _ => {},
        }
    }

    /// The occupants of `room`, in arrival order.
    #[verifier::loop_isolation(false)]
    pub fn get_occupants(&self, room: &str) -> (r: Vec<MucOccupant>)
        ensures
            occupant_views(r@) == occupants_of(self.occupants_spec(), room@),
    {
        let n = self.occupants.len();
        let mut out: Vec<MucOccupant> = Vec::new();
        let ghost svs = self.occupants_spec();
        proof {
            assert(occupant_views(out@) =~= occupants_of(svs.take(0), room@));
        }
        let mut i: usize = 0;
        while i < n
            invariant
                n == self.occupants@.len(),
                svs == self.occupants_spec(),
                i <= n,
                occupant_views(out@) == occupants_of(svs.take(i as int), room@),
            decreases n - i,
        {
            let ghost prev = out@;
            if str_eq(self.occupants[i].room.as_str(), room) {
                out.push(clone_occupant(&self.occupants[i].occupant));
            }
            proof {
                assert(svs.take(i + 1).drop_last() =~= svs.take(i as int));
                assert(svs.take(i + 1).last() == svs[i as int]);
                if svs[i as int].room == room@ {
                    assert(occupant_views(out@) =~= occupant_views(prev).push(
                        svs[i as int].occupant,
                    ));
                }
            }
            i += 1;
        }
        proof {
            assert(svs.take(n as int) =~= svs);
        }
        out
    }

    /// The rooms whose join the server confirmed.
    pub fn get_joined_rooms(&self, store: &Store) -> (r: Vec<MucRoom>)
        ensures
            room_views(r@) == store.rooms().filter(|v: MucRoomView| v.joined),
    {
        store.get_joined_rooms()
    }

    /// At most `limit` groupchat messages of `room`, newest first,
    /// optionally paginated by `before_id`.
    pub fn get_room_messages(
        &self,
        store: &Store,
        room: &str,
        limit: usize,
        before_id: Option<&str>,
    ) -> (r: Vec<ChatMessage>)
        ensures
            msg_views(r@) == page_of(
                cut_spec(store.messages().filter(room_msg_pred(room@)), view_opt_str_ref(before_id)),
                limit as int,
            ),
    {
        store.query_room_messages(room, limit, before_id)
    }

    /// Drop every occupant entry of `room`.
    #[verifier::loop_isolation(false)]
    fn clear_room(&mut self, room: &str)
        requires
            old(self).wf(),
        ensures
            final(self).wf(),
            final(self).occupants_spec() == clear_room_spec(old(self).occupants_spec(), room@),
    {
        let n = self.occupants.len();
        let mut out: Vec<OccupantEntry> = Vec::new();
        let ghost s0 = self.occupants_spec();
        proof {
            assert(occ_views(out@) =~= clear_room_spec(s0.take(0), room@));
        }
        let mut i: usize = 0;
        while i < n
            invariant
                *self == *old(self),
                n == self.occupants@.len(),
                s0 == self.occupants_spec(),
                i <= n,
                occ_views(out@) == clear_room_spec(s0.take(i as int), room@),
            decreases n - i,
        {
            let ghost prev = out@;
            if !str_eq(self.occupants[i].room.as_str(), room) {
                let e = OccupantEntry {
                    room: self.occupants[i].room.clone(),
                    occupant: clone_occupant(&self.occupants[i].occupant),
                };
                out.push(e);
            }
            proof {
                assert(s0.take(i + 1).drop_last() =~= s0.take(i as int));
                assert(s0.take(i + 1).last() == s0[i as int]);
                if s0[i as int].room != room@ {
                    assert(occ_views(out@) =~= occ_views(prev).push(s0[i as int]));
                }
            }
            i += 1;
        }
        proof {
            assert(s0.take(n as int) =~= s0);
        }
        self.occupants = out;
        proof {
            // Filtering keeps pairwise uniqueness: every kept entry is an
            // entry of the original sequence.
            assert forall|a: int, b: int| 0 <= a < b < self.occupants_spec().len() implies !((
            #[trigger] self.occupants_spec()[a]).room == (#[trigger] self.occupants_spec()[b]).room
                && self.occupants_spec()[a].occupant.nick
                == self.occupants_spec()[b].occupant.nick) by {
                lemma_clear_room_unique(s0, room@, a, b);
            }
        }
    }

    /// Insert or replace the occupant entry keyed by (room, nick).
    #[verifier::loop_isolation(false)]
    fn upsert_occupant(&mut self, entry: OccupantEntry)
        requires
            old(self).wf(),
        ensures
            final(self).wf(),
            final(self).occupants_spec() == upsert_occ_spec(old(self).occupants_spec(), entry@),
    {
        let n = self.occupants.len();
        let mut i: usize = 0;
        while i < n
            invariant
                *self == *old(self),
                n == self.occupants@.len(),
                i <= n,
                forall|k: int|
                    0 <= k < i ==> !((#[trigger] self.occupants_spec()[k]).room == entry@.room
                        && self.occupants_spec()[k].occupant.nick == entry@.occupant.nick),
            decreases n - i,
        {
            if str_eq(self.occupants[i].room.as_str(), entry.room.as_str()) && str_eq(
                self.occupants[i].occupant.nick.as_str(),
                entry.occupant.nick.as_str(),
            ) {
                proof {
                    lemma_first_occ_index_at(
                        self.occupants_spec(),
                        entry@.room,
                        entry@.occupant.nick,
                        i as int,
                    );
                }
                let ghost at = i as int;
                let ghost before = self.occupants@;
                let ghost ev = entry@;
                self.occupants.set(i, entry);
                proof {
                    assert(self.occupants_spec() =~= occ_views(before).update(at, ev));
                    assert forall|a: int, b: int| 0 <= a < b < self.occupants_spec().len() implies !(
                    (#[trigger] self.occupants_spec()[a]).room == (
                    #[trigger] self.occupants_spec()[b]).room && self.occupants_spec()[a].occupant.nick == self.occupants_spec()[b].occupant.nick) by {
                        assert(!(old(self).occupants_spec()[a].room == old(
                            self,
                        ).occupants_spec()[b].room && old(self).occupants_spec()[a].occupant.nick
                            == old(self).occupants_spec()[b].occupant.nick));
                        assert(self.occupants_spec()[at].room == old(self).occupants_spec()[at].room && self.occupants_spec()[at].occupant.nick == old(
                            self,
                        ).occupants_spec()[at].occupant.nick);
                    }
                }
                return ;
            }
            i += 1;
        }
        proof {
            lemma_first_occ_index_at(
                self.occupants_spec(),
                entry@.room,
                entry@.occupant.nick,
                n as int,
            );
        }
        let ghost before = self.occupants@;
        let ghost ev = entry@;
        self.occupants.push(entry);
        proof {
            assert(self.occupants_spec() =~= occ_views(before).push(ev));
            assert forall|a: int, b: int| 0 <= a < b < self.occupants_spec().len() implies !((
            #[trigger] self.occupants_spec()[a]).room == (#[trigger] self.occupants_spec()[b]).room && self.occupants_spec()[a].occupant.nick == self.occupants_spec()[b].occupant.nick) by {
                if b < before.len() {
                    assert(!(old(self).occupants_spec()[a].room == old(self).occupants_spec()[b].room && old(self).occupants_spec()[a].occupant.nick == old(
                        self,
                    ).occupants_spec()[b].occupant.nick));
                } else {
                    assert(!(old(self).occupants_spec()[a].room == ev.room && old(
                        self,
                    ).occupants_spec()[a].occupant.nick == ev.occupant.nick));
                }
            }
        }
    }

    /// Remove the occupant (room, nick), if present.
    #[verifier::loop_isolation(false)]
    fn remove_occupant(&mut self, room: &str, nick: &str)
        requires
            old(self).wf(),
        ensures
            final(self).wf(),
            final(self).occupants_spec() == remove_occ_spec(old(self).occupants_spec(), room@, nick@),
    {
        let n = self.occupants.len();
        let mut i: usize = 0;
        while i < n
            invariant
                *self == *old(self),
                n == self.occupants@.len(),
                i <= n,
                forall|k: int|
                    0 <= k < i ==> !((#[trigger] self.occupants_spec()[k]).room == room@
                        && self.occupants_spec()[k].occupant.nick == nick@),
            decreases n - i,
        {
            if str_eq(self.occupants[i].room.as_str(), room) && str_eq(
                self.occupants[i].occupant.nick.as_str(),
                nick,
            ) {
                proof {
                    lemma_first_occ_index_at(self.occupants_spec(), room@, nick@, i as int);
                }
                let ghost at = i as int;
                let ghost before = self.occupants@;
                self.occupants.remove(i);
                proof {
                    assert(self.occupants_spec() =~= occ_views(before).remove(at));
                    assert forall|a: int, b: int| 0 <= a < b < self.occupants_spec().len() implies !(
                    (#[trigger] self.occupants_spec()[a]).room == (
                    #[trigger] self.occupants_spec()[b]).room && self.occupants_spec()[a].occupant.nick == self.occupants_spec()[b].occupant.nick) by {
                        let a0 = if a < at {
                            a
                        } else {
                            a + 1
                        };
                        let b0 = if b < at {
                            b
                        } else {
                            b + 1
                        };
                        assert(self.occupants_spec()[a] == old(self).occupants_spec()[a0]);
                        assert(self.occupants_spec()[b] == old(self).occupants_spec()[b0]);
                        assert(!(old(self).occupants_spec()[a0].room == old(
                            self,
                        ).occupants_spec()[b0].room && old(self).occupants_spec()[a0].occupant.nick
                            == old(self).occupants_spec()[b0].occupant.nick));
                    }
                }
                return ;
            }
            i += 1;
        }
        proof {
            lemma_first_occ_index_at(self.occupants_spec(), room@, nick@, n as int);
        }
    }
}

/// Two entries kept by a room reset were distinct entries of the
/// original sequence, so they still differ in (room, nick).
proof fn lemma_clear_room_unique(s: Seq<OccupantEntryView>, room: Seq<char>, a: int, b: int)
    requires
        forall|i: int, j: int|
            0 <= i < j < s.len() ==> !((#[trigger] s[i]).room == (#[trigger] s[j]).room && s[i].occupant.nick == s[j].occupant.nick),
        0 <= a < b < clear_room_spec(s, room).len(),
    ensures
        !((clear_room_spec(s, room)[a]).room == (clear_room_spec(s, room)[b]).room
            && clear_room_spec(s, room)[a].occupant.nick == clear_room_spec(s, room)[b].occupant.nick),
    decreases s.len(),
{
    if s.len() > 0 {
        let s0 = s.drop_last();
        let f = clear_room_spec(s, room);
        let f0 = clear_room_spec(s0, room);
        if b < f0.len() {
            lemma_clear_room_unique(s0, room, a, b);
        } else {
            if f.len() > f0.len() {
                // f = f0.push(s.last()): position b names s.last().
                lemma_clear_member(s0, room, a);
                let w = choose|w: int| 0 <= w < s0.len() && s0[w] == f0[a];
                assert(s[w] == s0[w]);
                assert(!(s[w].room == s.last().room && s[w].occupant.nick
                    == s.last().occupant.nick));
            } else {
                lemma_clear_room_unique(s0, room, a, b);
            }
        }
    }
}

/// Every kept entry occurs in the original sequence.
proof fn lemma_clear_member(s: Seq<OccupantEntryView>, room: Seq<char>, k: int)
    requires
        0 <= k < clear_room_spec(s, room).len(),
    ensures
        exists|w: int| 0 <= w < s.len() && s[w] == clear_room_spec(s, room)[k],
    decreases s.len(),
{
    if s.len() > 0 {
        let s0 = s.drop_last();
        let f0 = clear_room_spec(s0, room);
        if k < f0.len() {
            lemma_clear_member(s0, room, k);
            let w = choose|w: int| 0 <= w < s0.len() && s0[w] == f0[k];
            assert(s[w] == s0[w] && s[w] == clear_room_spec(s, room)[k]);
        } else {
            assert(s[s.len() - 1] == clear_room_spec(s, room)[k]);
        }
    }
}

} // verus!
