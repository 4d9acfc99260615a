//! Presence tracking: our own presence and one record per contact,
//! keyed by bare JID. Initial presence is announced only after the
//! roster arrived, so the presence broadcast never races the contact
//! list.

use vstd::prelude::*;

use crate::bus::{published_any, BroadcastEventBus};
use crate::channel::Channel;
use crate::clock::now_millis;
use crate::error::PresenceError;
use crate::event::{
    clone_opt_str, clone_presence, view_opt_str, Event, EventPayload, EventSource, PresenceInfo,
    PresenceInfoView, PresenceShow,
};
use crate::strings::str_eq;

verus! {

/// Index of the first slash, or the length when there is none.
pub open spec fn first_slash(s: Seq<char>) -> int
    decreases s.len(),
{
    if s.len() == 0 {
        0
    } else if s[0] == '/' {
        0
    } else {
        1 + first_slash(s.subrange(1, s.len() as int))
    }
}

/// The bare JID: everything before the first slash.
pub open spec fn bare_of(j: Seq<char>) -> Seq<char> {
    j.take(first_slash(j))
}

pub proof fn lemma_first_slash_bounds(s: Seq<char>)
    ensures
        0 <= first_slash(s) <= s.len(),
        forall|k: int| 0 <= k < first_slash(s) ==> #[trigger] s[k] != '/',
        first_slash(s) < s.len() ==> s[first_slash(s)] == '/',
    decreases s.len(),
{
    if s.len() > 0 && s[0] != '/' {
        let t = s.subrange(1, s.len() as int);
        lemma_first_slash_bounds(t);
        assert forall|k: int| 0 <= k < first_slash(s) implies #[trigger] s[k] != '/' by {
            if k > 0 {
                assert(t[k - 1] != '/');
            }
        }
    }
}

pub proof fn lemma_first_slash_at(s: Seq<char>, i: int)
    requires
        0 <= i <= s.len(),
        forall|k: int| 0 <= k < i ==> #[trigger] s[k] != '/',
        i < s.len() ==> s[i] == '/',
    ensures
        first_slash(s) == i,
    decreases s.len(),
{
    if s.len() == 0 {
    } else if s[0] == '/' {
    } else {
        let t = s.subrange(1, s.len() as int);
        assert forall|k: int| 0 <= k < i - 1 implies #[trigger] t[k] != '/' by {
            assert(s[k + 1] != '/');
        }
        lemma_first_slash_at(t, i - 1);
    }
}

/// Stripping the resource twice is stripping it once.
pub proof fn lemma_bare_idempotent(j: Seq<char>)
    ensures
        bare_of(bare_of(j)) == bare_of(j),
{
    lemma_first_slash_bounds(j);
    let b = bare_of(j);
    assert forall|k: int| 0 <= k < b.len() implies #[trigger] b[k] != '/' by {
        assert(j[k] != '/');
    }
    lemma_first_slash_at(b, b.len() as int);
    assert(bare_of(b) =~= b);
}

/// Strip the resource part of a JID: `user@host/res` becomes `user@host`.
pub fn bare_jid(jid: &str) -> (r: String)
    ensures
        r@ == bare_of(jid@),
{
    let n = jid.unicode_len();
    let mut i: usize = 0;
    while i < n
        invariant
            n == jid@.len(),
            i <= n,
            forall|k: int| 0 <= k < i ==> #[trigger] jid@[k] != '/',
        decreases n - i,
    {
        if jid.get_char(i) == '/' {
            proof {
                lemma_first_slash_at(jid@, i as int);
            }
            return jid.substring_char(0, i).to_owned();
        }
        i += 1;
    }
    proof {
        lemma_first_slash_at(jid@, n as int);
        assert(jid@.take(n as int) =~= jid@);
    }
    jid.to_owned()
}

/// First contact whose jid is `bare`, or the length.
pub open spec fn first_presence_index(s: Seq<PresenceInfoView>, bare: Seq<char>) -> int
    decreases s.len(),
{
    if s.len() == 0 {
        0
    } else if s[0].jid == bare {
        0
    } else {
        1 + first_presence_index(s.drop_first(), bare)
    }
}

proof fn lemma_first_presence_index_at(s: Seq<PresenceInfoView>, bare: Seq<char>, i: int)
    requires
        0 <= i <= s.len(),
        forall|k: int| 0 <= k < i ==> (#[trigger] s[k]).jid != bare,
        i < s.len() ==> s[i].jid == bare,
    ensures
        first_presence_index(s, bare) == i,
    decreases s.len(),
{
    if s.len() == 0 {
    } else if s[0].jid == bare {
    } else {
        assert forall|k: int| 0 <= k < i - 1 implies (#[trigger] s.drop_first()[k]).jid != bare by {
            assert(s[k + 1].jid != bare);
        }
        lemma_first_presence_index_at(s.drop_first(), bare, i - 1);
    }
}

/// The presence recorded for a bare JID: the stored record, or an
/// unavailable default. The default is deliberately timeless
/// (`last_updated` fixed at zero) so that a lookup is a pure function of
/// the contact map: two lookups of an unknown contact return equal
/// records, which the bare-JID law relies on.
pub open spec fn presence_of(s: Seq<PresenceInfoView>, bare: Seq<char>) -> PresenceInfoView {
    let j = first_presence_index(s, bare);
    if j < s.len() {
        s[j]
    } else {
        PresenceInfoView {
            jid: bare,
            show: PresenceShow::Unavailable,
            status: Option::None,
            priority: 0,
            last_updated: 0,
        }
    }
}

/// Presence lookups agree for a full JID and its bare form: asking for
/// `j` and asking for `bare_of(j)` read the same contact record, since
/// stripping the resource is idempotent.
pub proof fn lemma_presence_bare_jid(s: Seq<PresenceInfoView>, j: Seq<char>)
    ensures
        presence_of(s, bare_of(j)) == presence_of(s, bare_of(bare_of(j))),
{
    lemma_bare_idempotent(j);
}

/// Upsert a contact record, keyed by its (bare) jid.
pub open spec fn upsert_presence_spec(s: Seq<PresenceInfoView>, p: PresenceInfoView) -> Seq<
    PresenceInfoView,
> {
    let j = first_presence_index(s, p.jid);
    if j < s.len() {
        s.update(j, p)
    } else {
        s.push(p)
    }
}

/// Which payloads this manager reacts to.
pub open spec fn presence_relevant(p: EventPayload) -> bool {
    ||| p is ConnectionEstablished
    ||| p is ConnectionLost
    ||| p is RosterReceived
    ||| p is PresenceChanged
    ||| p is OwnPresenceChanged
}

/// The announcement of our own presence.
pub open spec fn presence_set_event(e: Event, show: PresenceShow, status: Option<Seq<char>>)
    -> bool {
    &&& e.channel@ == "ui.presence.set"@
    &&& e.payload matches EventPayload::PresenceSetRequested { show: sh, status: st } && sh == show
        && view_opt_str(st) == status
}

/// Our own presence and one record per contact.
pub struct PresenceManager {
    own: PresenceInfo,
    contacts: Vec<PresenceInfo>,
}

impl PresenceManager {
    pub closed spec fn own_spec(self) -> PresenceInfoView {
        self.own@
    }

    pub closed spec fn contacts_spec(self) -> Seq<PresenceInfoView> {
        self.contacts@.map_values(|p: PresenceInfo| p@)
    }

    /// No two contact records share a jid.
    pub open spec fn wf(self) -> bool {
        forall|i: int, j: int|
            0 <= i < j < self.contacts_spec().len() ==> (#[trigger] self.contacts_spec()[i]).jid
                != (#[trigger] self.contacts_spec()[j]).jid
    }

    /// A fresh manager: own presence unavailable with an empty jid, no
    /// contacts.
    pub fn new() -> (r: PresenceManager)
        ensures
            r.wf(),
            r.own_spec().jid.len() == 0,
            r.own_spec().show == PresenceShow::Unavailable,
            r.own_spec().status is None,
            r.own_spec().priority == 0,
            r.contacts_spec().len() == 0,
    {
        let r = PresenceManager {
            own: PresenceInfo {
                jid: String::new(),
                show: PresenceShow::Unavailable,
                status: None,
                priority: 0,
                last_updated: now_millis(),
            },
            contacts: Vec::new(),
        };
        r
    }

    /// Our own current presence.
    pub fn own_presence(&self) -> (r: PresenceInfo)
        ensures
            r@ == self.own_spec(),
    {
        clone_presence(&self.own)
    }

    /// The presence of a contact, looked up by bare JID (a full JID is
    /// stripped first). Unknown contacts are unavailable, with a
    /// timeless default record — the lookup stamps no clock, so equal
    /// queries return equal records.
    #[verifier::loop_isolation(false)]
    pub fn get_presence(&self, jid: &str) -> (r: PresenceInfo)
        ensures
            r@ == presence_of(self.contacts_spec(), bare_of(jid@)),
    {
        let bare = bare_jid(jid);
        let n = self.contacts.len();
        let mut i: usize = 0;
        while i < n
            invariant
                n == self.contacts@.len(),
                i <= n,
                bare@ == bare_of(jid@),
                forall|k: int| 0 <= k < i ==> (#[trigger] self.contacts_spec()[k]).jid != bare@,
            decreases n - i,
        {
            if str_eq(self.contacts[i].jid.as_str(), bare.as_str()) {
                proof {
                    lemma_first_presence_index_at(self.contacts_spec(), bare@, i as int);
                }
                return clone_presence(&self.contacts[i]);
            }
            i += 1;
        }
        proof {
            lemma_first_presence_index_at(self.contacts_spec(), bare@, n as int);
        }
        let r = PresenceInfo {
            jid: bare,
            show: PresenceShow::Unavailable,
            status: None,
            priority: 0,
            last_updated: 0,
        };
        r
    }

    /// Update our own presence and announce it on `ui.presence.set`.
    pub fn set_own_presence(
        &mut self,
        bus: &mut BroadcastEventBus,
        show: PresenceShow,
        status: Option<&str>,
        priority: Option<i8>,
    ) -> (r: Result<(), PresenceError>)
        requires
            old(bus).inv(),
            old(bus).room(1),
        ensures
            final(bus).inv(),
            r is Ok,
            final(self).wf() == old(self).wf(),
            final(self).own_spec().jid == old(self).own_spec().jid,
            final(self).own_spec().show == show,
            final(self).own_spec().status == (match status {
                Option::Some(s) => Option::Some(s@),
                Option::None => Option::<Seq<char>>::None,
            }),
            final(self).own_spec().priority == (match priority {
                Option::Some(p) => p,
                Option::None => old(self).own_spec().priority,
            }),
            final(self).contacts_spec() == old(self).contacts_spec(),
            exists|e: Event|
                #[trigger] published_any(*old(bus), *final(bus), e) && presence_set_event(
                    e,
                    show,
                    match status {
                        Option::Some(s) => Option::Some(s@),
                        Option::None => Option::None,
                    },
                ),
    {
        let status_owned: Option<String> = match status {
            Some(s) => Some(s.to_owned()),
            None => None,
        };
        self.own.show = show;
        self.own.status = clone_opt_str(&status_owned);
        if let Some(p) = priority {
            self.own.priority = p;
        }
        self.own.last_updated = now_millis();
        let ev = Event::new(
            Channel::raw("ui.presence.set".to_owned()),
            EventSource::System("presence".to_owned()),
            EventPayload::PresenceSetRequested { show, status: status_owned },
        );
        let ghost evg = ev;
        let _ = bus.publish(ev);
        proof {
            assert(published_any(*old(bus), *bus, evg));
        }
        Ok(())
    }

    /// React to one bus event, as the presence manager's run loop would.
    ///
    /// A new connection records our jid, resets the contacts and waits —
    /// the initial presence is announced only when the roster arrives. A
    /// lost connection clears the contacts. Contact presence is upserted
    /// under the bare JID, last writer wins. A change of our own
    /// presence received from the transport is recorded without being
    /// re-announced.
    pub fn handle_event(&mut self, bus: &mut BroadcastEventBus, event: &Event)
        requires
            old(self).wf(),
            old(bus).inv(),
            old(bus).room(1),
        ensures
            final(self).wf(),
            final(bus).inv(),
            event.payload matches EventPayload::ConnectionEstablished { jid } ==> {
                &&& final(self).own_spec().jid == jid@
                &&& final(self).own_spec().show == PresenceShow::Unavailable
                &&& final(self).own_spec().status is None
                &&& final(self).own_spec().priority == 0
                &&& final(self).contacts_spec().len() == 0
                &&& *final(bus) == *old(bus)
            },
            event.payload is RosterReceived ==> {
                &&& final(self).own_spec().show == PresenceShow::Available
                &&& final(self).own_spec().jid == old(self).own_spec().jid
                &&& final(self).contacts_spec() == old(self).contacts_spec()
                &&& exists|e: Event|
                    #[trigger] published_any(*old(bus), *final(bus), e) && presence_set_event(
                        e,
                        PresenceShow::Available,
                        Option::None,
                    )
            },
            event.payload is ConnectionLost ==> {
                &&& final(self).contacts_spec().len() == 0
                &&& final(self).own_spec().show == PresenceShow::Unavailable
                &&& final(self).own_spec().status is None
                &&& final(self).own_spec().jid == old(self).own_spec().jid
                &&& *final(bus) == *old(bus)
            },
            event.payload matches EventPayload::PresenceChanged { jid, show, status, priority }
                ==> {
                &&& final(self).contacts_spec() == upsert_presence_spec(
                    old(self).contacts_spec(),
                    PresenceInfoView {
                        jid: bare_of(jid@),
                        show,
                        status: view_opt_str(status),
                        priority,
                        last_updated: final(self).contacts_spec()[first_presence_index(
                            old(self).contacts_spec(),
                            bare_of(jid@),
                        )].last_updated,
                    },
                )
                &&& final(self).own_spec() == old(self).own_spec()
                &&& *final(bus) == *old(bus)
            },
            event.payload matches EventPayload::OwnPresenceChanged { show, status } ==> {
                &&& final(self).own_spec().show == show
                &&& final(self).own_spec().status == view_opt_str(status)
                &&& final(self).own_spec().jid == old(self).own_spec().jid
                &&& final(self).contacts_spec() == old(self).contacts_spec()
                &&& *final(bus) == *old(bus)
            },
            !presence_relevant(event.payload) ==> *final(self) == *old(self) && *final(bus)
                == *old(bus),
    {
        match &event.payload {
            EventPayload::ConnectionEstablished { jid } => {
                self.own = PresenceInfo {
                    jid: jid.clone(),
                    show: PresenceShow::Unavailable,
                    status: None,
                    priority: 0,
                    last_updated: now_millis(),
                };
                self.contacts.clear();
                proof {
                    assert(self.contacts_spec() =~= Seq::<PresenceInfoView>::empty());
                }
            },
            EventPayload::RosterReceived { .. } => {
                self.own.show = PresenceShow::Available;
                self.own.last_updated = now_millis();
                let ev = Event::new(
                    Channel::raw("ui.presence.set".to_owned()),
                    EventSource::System("presence".to_owned()),
                    EventPayload::PresenceSetRequested {
                        show: PresenceShow::Available,
                        status: None,
                    },
                );
                let ghost evg = ev;
                let _ = bus.publish(ev);
                proof {
                    assert(published_any(*old(bus), *bus, evg) && presence_set_event(
                        evg,
                        PresenceShow::Available,
                        Option::None,
                    ));
                }
            },
            EventPayload::ConnectionLost { .. } => {
                self.contacts.clear();
                self.own.show = PresenceShow::Unavailable;
                self.own.status = None;
                self.own.last_updated = now_millis();
                proof {
                    assert(self.contacts_spec() =~= Seq::<PresenceInfoView>::empty());
                }
            },
            EventPayload::PresenceChanged { jid, show, status, priority } => {
                let bare = bare_jid(jid.as_str());
                let rec = PresenceInfo {
                    jid: bare,
                    show: *show,
                    status: clone_opt_str(status),
                    priority: *priority,
                    last_updated: now_millis(),
                };
                self.upsert_contact(rec);
            },
            EventPayload::OwnPresenceChanged { show, status } => {
                self.own.show = *show;
                self.own.status = clone_opt_str(status);
                self.own.last_updated = now_millis();
            },
            _ => {},
        }
    }

    /// Insert or replace the contact record with `rec`'s jid.
    #[verifier::loop_isolation(false)]
    fn upsert_contact(&mut self, rec: PresenceInfo)
        requires
            old(self).wf(),
        ensures
            final(self).wf(),
            final(self).own_spec() == old(self).own_spec(),
            final(self).contacts_spec() == upsert_presence_spec(old(self).contacts_spec(), rec@),
            final(self).contacts_spec()[first_presence_index(old(self).contacts_spec(), rec@.jid)]
                == rec@,
    {
        let n = self.contacts.len();
        let mut i: usize = 0;
        while i < n
            invariant
                *self == *old(self),
                n == self.contacts@.len(),
                i <= n,
                forall|k: int| 0 <= k < i ==> (#[trigger] self.contacts_spec()[k]).jid != rec@.jid,
            decreases n - i,
        {
            if str_eq(self.contacts[i].jid.as_str(), rec.jid.as_str()) {
                proof {
                    lemma_first_presence_index_at(self.contacts_spec(), rec@.jid, i as int);
                }
                let ghost at = i as int;
                let ghost before = self.contacts@;
                let ghost recv = rec@;
                self.contacts.set(i, rec);
                proof {
                    assert(self.contacts_spec() =~= before.map_values(|p: PresenceInfo| p@).update(
                        at,
                        recv,
                    ));
                    assert forall|a: int, b: int| 0 <= a < b < self.contacts_spec().len() implies (
                    #[trigger] self.contacts_spec()[a]).jid != (
                    #[trigger] self.contacts_spec()[b]).jid by {
                        assert(old(self).contacts_spec()[a].jid
                            != old(self).contacts_spec()[b].jid);
                        assert(self.contacts_spec()[at].jid == old(self).contacts_spec()[at].jid);
                    }
                }
                return ;
            }
            i += 1;
        }
        proof {
            lemma_first_presence_index_at(self.contacts_spec(), rec@.jid, n as int);
        }
        let ghost before = self.contacts@;
        let ghost recv = rec@;
        self.contacts.push(rec);
        proof {
            assert(self.contacts_spec() =~= before.map_values(|p: PresenceInfo| p@).push(recv));
            assert forall|a: int, b: int| 0 <= a < b < self.contacts_spec().len() implies (
            #[trigger] self.contacts_spec()[a]).jid != (#[trigger] self.contacts_spec()[b]).jid by {
                if b < before.len() {
                    assert(old(self).contacts_spec()[a].jid != old(self).contacts_spec()[b].jid);
                } else {
                    assert(old(self).contacts_spec()[a].jid != recv.jid);
                }
            }
        }
    }
}

} // verus!
