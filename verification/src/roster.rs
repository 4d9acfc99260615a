//! Roster synchronization: a full replace on `xmpp.roster.received`,
//! incremental upserts and deletes on pushes, and an optimistic local
//! add that asks the server through `ui.roster.add`.

use vstd::prelude::*;

use crate::bus::{published_any, BroadcastEventBus};
use crate::channel::Channel;
use crate::event::{
    clone_opt_str, clone_strs, view_opt_str, view_strs, Event, EventPayload, EventSource,
    RosterItem, Subscription,
};
use crate::store::{fold_roster, remove_roster_spec, roster_views, upsert_roster_spec, Store};

verus! {

/// Which payloads this manager reacts to.
pub open spec fn roster_relevant(p: EventPayload) -> bool {
    ||| p is ConnectionEstablished
    ||| p is RosterReceived
    ||| p is RosterUpdated
    ||| p is RosterRemoved
}

/// The request for a full roster sync.
pub open spec fn roster_fetch_event(e: Event) -> bool {
    &&& e.channel@ == "ui.roster.fetch"@
    &&& e.payload is RosterFetchRequested
}

/// The request to add a contact on the server.
pub open spec fn roster_add_event(
    e: Event,
    jid: Seq<char>,
    name: Option<Seq<char>>,
    groups: Seq<Seq<char>>,
) -> bool {
    &&& e.channel@ == "ui.roster.add"@
    &&& e.payload matches EventPayload::RosterAddRequested { jid: j, name: n, groups: g } && j@
        == jid && view_opt_str(n) == name && view_strs(g@) == groups
}

/// Contact list synchronization over the bus.
pub struct RosterManager {}

impl RosterManager {
    pub fn new() -> (r: RosterManager) {
        RosterManager {  }
    }

    /// React to one bus event: ask for a sync on a fresh connection,
    /// replace the roster wholesale when it arrives, and apply pushes
    /// (an update with subscription `remove` deletes the row).
    pub fn handle_event(&self, store: &mut Store, bus: &mut BroadcastEventBus, event: &Event)
        requires
            old(store).wf(),
            old(bus).inv(),
            old(bus).room(1),
        ensures
            final(store).wf(),
            final(bus).inv(),
            final(store).messages() == old(store).messages(),
            final(store).rooms() == old(store).rooms(),
            final(store).queue() == old(store).queue(),
            final(store).cursors() == old(store).cursors(),
            final(store).next_qid() == old(store).next_qid(),
            event.payload is ConnectionEstablished ==> {
                &&& final(store).roster() == old(store).roster()
                &&& exists|e: Event|
                    #[trigger] published_any(*old(bus), *final(bus), e) && roster_fetch_event(e)
            },
            event.payload matches EventPayload::RosterReceived { items } ==> {
                &&& final(store).roster() == fold_roster(roster_views(items@))
                &&& *final(bus) == *old(bus)
            },
            event.payload matches EventPayload::RosterUpdated { item } ==> {
                &&& item.subscription != Subscription::Remove ==> final(store).roster()
                    == upsert_roster_spec(old(store).roster(), item@)
                &&& item.subscription == Subscription::Remove ==> final(store).roster()
                    == remove_roster_spec(old(store).roster(), item@.jid)
                &&& *final(bus) == *old(bus)
            },
            event.payload matches EventPayload::RosterRemoved { jid } ==> {
                &&& final(store).roster() == remove_roster_spec(old(store).roster(), jid@)
                &&& *final(bus) == *old(bus)
            },
            !roster_relevant(event.payload) ==> final(store).roster() == old(store).roster()
                && *final(bus) == *old(bus),
    {
        match &event.payload {
            EventPayload::ConnectionEstablished { .. } => {
                let ev = Event::new(
                    Channel::raw("ui.roster.fetch".to_owned()),
                    EventSource::System("roster".to_owned()),
                    EventPayload::RosterFetchRequested,
                );
                let ghost evg = ev;
                let _ = bus.publish(ev);
                proof {
                    assert(published_any(*old(bus), *bus, evg) && roster_fetch_event(evg));
                }
            },
            EventPayload::RosterReceived { items } => {
                store.replace_roster(items);
            },
            EventPayload::RosterUpdated { item } => {
                let is_remove = matches!(item.subscription, Subscription::Remove);
                if is_remove {
                    store.remove_roster_item(item.jid.as_str());
                } else {
                    store.upsert_roster_item(item);
                }
            },
            EventPayload::RosterRemoved { jid } => {
                store.remove_roster_item(jid.as_str());
            },
            _ => {},
        }
    }

    /// The stored roster, in insertion order.
    pub fn get_roster(&self, store: &Store) -> (r: Vec<RosterItem>)
        ensures
            roster_views(r@) == store.roster(),
    {
        store.get_roster()
    }

    /// Persist a contact locally with subscription `none` and ask the
    /// server to add it; the server's own roster push will confirm it.
    pub fn add_contact(
        &self,
        store: &mut Store,
        bus: &mut BroadcastEventBus,
        jid: &str,
        name: Option<&str>,
        groups: &Vec<String>,
    ) -> (r: RosterItem)
        requires
            old(store).wf(),
            old(bus).inv(),
            old(bus).room(1),
        ensures
            final(store).wf(),
            final(bus).inv(),
            r@.jid == jid@,
            r@.subscription == Subscription::NotSubscribed,
            final(store).roster() == upsert_roster_spec(old(store).roster(), r@),
            final(store).messages() == old(store).messages(),
            final(store).rooms() == old(store).rooms(),
            final(store).queue() == old(store).queue(),
            final(store).cursors() == old(store).cursors(),
            final(store).next_qid() == old(store).next_qid(),
            exists|e: Event|
                #[trigger] published_any(*old(bus), *final(bus), e) && roster_add_event(
                    e,
                    jid@,
                    match name {
                        Option::Some(s) => Option::Some(s@),
                        Option::None => Option::None,
                    },
                    view_strs(groups@),
                ),
    {
        let name_owned: Option<String> = match name {
            Some(s) => Some(s.to_owned()),
            None => None,
        };
        let item = RosterItem {
            jid: jid.to_owned(),
            name: clone_opt_str(&name_owned),
            subscription: Subscription::NotSubscribed,
            groups: clone_strs(groups),
        };
        store.upsert_roster_item(&item);
        let ev = Event::new(
            Channel::raw("ui.roster.add".to_owned()),
            EventSource::System("roster".to_owned()),
            EventPayload::RosterAddRequested {
                jid: jid.to_owned(),
                name: name_owned,
                groups: clone_strs(groups),
            },
        );
        let ghost evg = ev;
        let _ = bus.publish(ev);
        proof {
            assert(published_any(*old(bus), *bus, evg));
            assert(view_strs(evg.payload->RosterAddRequested_groups@) =~= view_strs(groups@));
        }
        item
    }
}

} // verus!
