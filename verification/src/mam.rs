//! Message-archive catch-up, driven entirely over the bus: a query is
//! emitted on `ui.mam.query`, results and the final marker arrive on
//! `xmpp.mam.**`, pages are persisted idempotently and the catch-up
//! cursor moves forward after every page. The collector matches result
//! pages by their query id.

use vstd::prelude::*;

use crate::bus::{
    drained, lagged_post, pattern_domains_ok, published_any, published_two, recv_yields,
    BroadcastEventBus, EventSubscription,
};
use crate::channel::lemma_first_dot_at;
use crate::channel::Channel;
use crate::clock::now_millis;
use crate::error::MamError;
use crate::event::{
    clone_opt_str, view_opt_str, ChatMessage, Event, EventPayload, EventSource, PresenceShow,
    ScrollDirection,
};
use crate::glob::{glob_pattern_ok, GLOB_PATTERN_MAX};
use crate::ids::fresh_uuid;
use crate::event::ChatMessageView;
use crate::store::{
    clone_messages, cursor_of, insert_msgs_spec, msg_views, oldest_involving, view_opt_str_ref,
    Store,
};
use crate::strings::str_eq;

verus! {

/// Archive page size.
pub const MAM_PAGE_SIZE: u32 = 50;

/// The outcome of a finished catch-up.
#[derive(Debug, Clone, Copy, PartialEq, Eq, Structural)]
pub struct MamSyncResult {
    pub messages_synced: u64,
    pub complete: bool,
}

/// What a running collector session serves.
enum SyncKind {
    /// Account-wide catch-up: moves the `__global__` cursor and brackets
    /// itself with `system.sync.started` / `system.sync.completed`.
    CatchUp { correlation_id: String },
    /// A one-page history fetch; the cursor is left alone.
    History,
}

/// One running collector session.
struct MamSession {
    query_id: String,
    kind: SyncKind,
    after: Option<String>,
    total: u64,
    page_count: u64,
    page_last: Option<String>,
    sub: EventSubscription,
}

/// Saturating addition on the synced-message counter.
pub open spec fn sat_add_u64(a: int, b: int) -> int {
    if a + b > u64::MAX {
        u64::MAX as int
    } else {
        a + b
    }
}

/// The start marker of a catch-up, carrying its correlation id.
pub open spec fn sync_started_event(e: Event, corr: Seq<char>) -> bool {
    &&& e.channel@ == "system.sync.started"@
    &&& e.payload is SyncStarted
    &&& e.correlation_id matches Some(c) && c@ == corr
}

/// The end marker of a catch-up: the same correlation id as its start,
/// and the count of synced messages.
pub open spec fn sync_completed_event(e: Event, n: u64, corr: Seq<char>) -> bool {
    &&& e.channel@ == "system.sync.completed"@
    &&& e.payload matches EventPayload::SyncCompleted { messages_synced } && messages_synced == n
    &&& e.correlation_id matches Some(c) && c@ == corr
}

/// An archive page request.
pub open spec fn mam_query_event(
    e: Event,
    qid: Seq<char>,
    after: Option<Seq<char>>,
    before: Option<Seq<char>>,
    max: u32,
) -> bool {
    &&& e.channel@ == "ui.mam.query"@
    &&& e.payload matches EventPayload::MamQueryRequested { query_id, after: a2, before: b2, max: m2 }
        && query_id@ == qid && view_opt_str(a2) == after && view_opt_str(b2) == before && m2 == max
}

/// What one poll of the collector found.
enum Action {
    /// Nothing useful: no event, an unrelated event, or a lag report.
    Quiet,
    /// A result page for our query.
    Page(Vec<ChatMessage>),
    /// The final marker of a page.
    Fin { complete: bool, last: Option<String> },
    /// The bus is gone.
    Failed,
}

/// The archive response pattern attaches to the xmpp buffer: its first
/// segment is the literal domain name.
proof fn lemma_mam_pattern_domains_ok()
    ensures
        pattern_domains_ok("xmpp.mam.**"@),
        "xmpp.mam.**"@.len() <= GLOB_PATTERN_MAX,
{
    reveal_strlit("xmpp.mam.**");
    reveal_strlit("xmpp");
    let p = "xmpp.mam.**"@;
    assert forall|j: int| 0 <= j < 4 implies p[j] != '.' by {
        if j == 0 {
            assert(p[0] == 'x');
        } else if j == 1 {
            assert(p[1] == 'm');
        } else if j == 2 {
            assert(p[2] == 'p');
        } else {
            assert(p[3] == 'p');
        }
    }
    assert(p[4] == '.');
    lemma_first_dot_at(p, 4);
    assert(p.take(4) =~= "xmpp"@);
}

/// The effect of consuming a page's final marker, given the session and
/// store before and after: the cursor moves to the page's last id (the
/// marker's, or the last result's) on a catch-up; the sync finishes —
/// returning its result and, on a catch-up, announcing the completion
/// under the correlation id of its start — when the server said so or
/// the page was empty; otherwise the next page query goes out.
pub open spec fn fin_step(
    m0: MamManager,
    m1: MamManager,
    st0: Store,
    st1: Store,
    b0: BroadcastEventBus,
    b1: BroadcastEventBus,
    complete: bool,
    fin_last: Option<Seq<char>>,
    r: Option<MamSyncResult>,
) -> bool {
    let page_last = if fin_last is Some {
        fin_last
    } else {
        m0.active_page_last()
    };
    let finished = complete || m0.active_page_count() == 0;
    &&& (m0.active_is_catchup() && page_last is Some) ==> cursor_of(st1.cursors(), "__global__"@)
        == page_last
    &&& (!(m0.active_is_catchup() && page_last is Some) ==> st1.cursors() == st0.cursors())
    &&& finished ==> {
        &&& r == Some(
            MamSyncResult {
                messages_synced: m0.active_total() as u64,
                complete: m0.active_is_catchup() || complete,
            },
        )
        &&& !m1.has_active()
        &&& m0.active_is_catchup() ==> exists|e: Event|
            #[trigger] published_any(b0, b1, e) && sync_completed_event(
                e,
                m0.active_total() as u64,
                m0.active_corr(),
            )
        &&& !m0.active_is_catchup() ==> b1 == b0
    }
    &&& !finished ==> {
        &&& r is None
        &&& m1.has_active()
        &&& m1.active_qid() == m0.active_qid()
        &&& m1.active_is_catchup() == m0.active_is_catchup()
        &&& m0.active_is_catchup() ==> m1.active_corr() == m0.active_corr()
        &&& m1.active_page_count() == 0
        &&& m1.active_page_last() is None
        &&& m1.active_after() == (if page_last is Some {
            page_last
        } else {
            m0.active_after()
        })
        &&& exists|e: Event|
            #[trigger] published_any(b0, b1, e) && mam_query_event(
                e,
                m0.active_qid(),
                m1.active_after(),
                Option::None,
                MAM_PAGE_SIZE,
            )
    }
}

/// The messages of a result page for query `qid`, if `e` is one.
pub open spec fn result_page_for(e: Event, qid: Seq<char>) -> Option<Seq<ChatMessageView>> {
    match e.payload {
        EventPayload::MamResultReceived { query_id, messages, .. } => {
            if query_id@ == qid {
                Option::Some(msg_views(messages@))
            } else {
                Option::None
            }
        },
        _ => Option::None,
    }
}

/// The payloads that start archive work: our own presence turning
/// available, or an upward scroll.
pub open spec fn mam_trigger(p: EventPayload) -> bool {
    ||| (p matches EventPayload::OwnPresenceChanged { show, .. } && show
        != PresenceShow::Unavailable)
    ||| (p matches EventPayload::ScrollRequested { direction, .. } && direction
        == ScrollDirection::Up)
}

/// Paginated archive catch-up.
pub struct MamManager {
    active: Option<MamSession>,
}

impl MamManager {
    pub closed spec fn has_active(self) -> bool {
        self.active is Some
    }

    pub closed spec fn active_qid(self) -> Seq<char> {
        self.active->Some_0.query_id@
    }

    pub closed spec fn active_is_catchup(self) -> bool {
        self.active->Some_0.kind is CatchUp
    }

    pub closed spec fn active_corr(self) -> Seq<char> {
        self.active->Some_0.kind->correlation_id@
    }

    pub closed spec fn active_total(self) -> int {
        self.active->Some_0.total as int
    }

    pub closed spec fn active_page_count(self) -> int {
        self.active->Some_0.page_count as int
    }

    pub closed spec fn active_page_last(self) -> Option<Seq<char>> {
        view_opt_str(self.active->Some_0.page_last)
    }

    pub closed spec fn active_after(self) -> Option<Seq<char>> {
        view_opt_str(self.active->Some_0.after)
    }

    /// The session's archive subscription.
    pub closed spec fn active_sub(self) -> EventSubscription {
        self.active->Some_0.sub
    }

    pub fn new() -> (r: MamManager)
        ensures
            !r.has_active(),
    {
        MamManager { active: None }
    }

    /// Whether a collector session is running: a driver polls the
    /// collector exactly while this holds.
    pub fn is_syncing(&self) -> (r: bool)
        ensures
            r == self.has_active(),
    {
        self.active.is_some()
    }

    /// Whether the server archive is used; the capability check is not
    /// part of the core, so the archive is assumed present.
    pub fn is_supported(&self) -> (r: bool)
        ensures
            r,
    {
        true
    }

    /// Start an account-wide catch-up: load the `__global__` cursor,
    /// subscribe to the archive responses, announce the sync and emit
    /// the first page query, resuming after the cursor. Fails exactly
    /// when the archive response pattern is not accepted by the glob
    /// compiler, leaving everything unchanged.
    pub fn sync_since(&mut self, store: &Store, bus: &mut BroadcastEventBus, _since_ms: i64) -> (r:
        Result<(), MamError>)
        requires
            old(bus).inv(),
            old(bus).room(2),
        ensures
            final(bus).inv(),
            r is Ok <==> glob_pattern_ok("xmpp.mam.**"@),
            r is Ok ==> {
                &&& final(self).has_active()
                &&& final(self).active_is_catchup()
                &&& final(self).active_total() == 0
                &&& final(self).active_after() == cursor_of(store.cursors(), "__global__"@)
                &&& exists|e1: Event, e2: Event|
                    #[trigger] published_two(*old(bus), *final(bus), e1, e2) && sync_started_event(
                        e1,
                        final(self).active_corr(),
                    ) && mam_query_event(
                        e2,
                        final(self).active_qid(),
                        cursor_of(store.cursors(), "__global__"@),
                        Option::None,
                        MAM_PAGE_SIZE,
                    )
            },
            r is Err ==> *final(bus) == *old(bus) && *final(self) == *old(self) && r
                == Result::<(), MamError>::Err(MamError::NotSupported),
    {
        proof {
            lemma_mam_pattern_domains_ok();
        }
        let sub = match bus.subscribe("xmpp.mam.**") {
            Ok(s) => s,
            Err(_) => {
                return Err(MamError::NotSupported);
            },
        };
        let after = store.get_cursor("__global__");
        let query_id = fresh_uuid();
        let correlation_id = fresh_uuid();
        let e1 = Event::with_correlation(
            Channel::raw("system.sync.started".to_owned()),
            EventSource::System("mam".to_owned()),
            EventPayload::SyncStarted,
            correlation_id.clone(),
        );
        let ghost e1g = e1;
        let ghost b0 = *bus;
        let _ = bus.publish(e1);
        let ghost b1 = *bus;
        proof {
            crate::bus::lemma_room_after_publish(b0, b1, e1g, 2);
        }
        let e2 = Event::new(
            Channel::raw("ui.mam.query".to_owned()),
            EventSource::System("mam".to_owned()),
            EventPayload::MamQueryRequested {
                query_id: query_id.clone(),
                after: clone_opt_str(&after),
                before: None,
                max: MAM_PAGE_SIZE,
            },
        );
        let ghost e2g = e2;
        let _ = bus.publish(e2);
        self.active = Some(
            MamSession {
                query_id,
                kind: SyncKind::CatchUp { correlation_id },
                after,
                total: 0,
                page_count: 0,
                page_last: None,
                sub,
            },
        );
        proof {
            assert(published_any(b0, b1, e1g) && published_any(b1, *bus, e2g));
            assert(published_two(*old(bus), *bus, e1g, e2g) && sync_started_event(
                e1g,
                self.active_corr(),
            ) && mam_query_event(
                e2g,
                self.active_qid(),
                cursor_of(store.cursors(), "__global__"@),
                Option::None,
                MAM_PAGE_SIZE,
            ));
        }
        Ok(())
    }

    /// Start a one-page history fetch, paginating backwards from
    /// `before` when given. The cursor and the sync markers are not
    /// involved. Fails exactly when the archive response pattern is not
    /// accepted by the glob compiler.
    pub fn fetch_history(&mut self, bus: &mut BroadcastEventBus, before: Option<&str>) -> (r:
        Result<(), MamError>)
        requires
            old(bus).inv(),
            old(bus).room(1),
        ensures
            final(bus).inv(),
            r is Ok <==> glob_pattern_ok("xmpp.mam.**"@),
            r is Ok ==> {
                &&& final(self).has_active()
                &&& !final(self).active_is_catchup()
                &&& exists|e: Event|
                    #[trigger] published_any(*old(bus), *final(bus), e) && mam_query_event(
                        e,
                        final(self).active_qid(),
                        Option::None,
                        view_opt_str_ref(before),
                        MAM_PAGE_SIZE,
                    )
            },
            r is Err ==> *final(bus) == *old(bus) && *final(self) == *old(self) && r
                == Result::<(), MamError>::Err(MamError::NotSupported),
    {
        proof {
            lemma_mam_pattern_domains_ok();
        }
        let sub = match bus.subscribe("xmpp.mam.**") {
            Ok(s) => s,
            Err(_) => {
                return Err(MamError::NotSupported);
            },
        };
        let query_id = fresh_uuid();
        let before_owned: Option<String> = match before {
            Some(b) => Some(b.to_owned()),
            None => None,
        };
        let ev = Event::new(
            Channel::raw("ui.mam.query".to_owned()),
            EventSource::System("mam".to_owned()),
            EventPayload::MamQueryRequested {
                query_id: query_id.clone(),
                after: None,
                before: before_owned,
                max: MAM_PAGE_SIZE,
            },
        );
        let ghost evg = ev;
        let _ = bus.publish(ev);
        self.active = Some(
            MamSession {
                query_id,
                kind: SyncKind::History,
                after: None,
                total: 0,
                page_count: 0,
                page_last: None,
                sub,
            },
        );
        proof {
            assert(published_any(*old(bus), *bus, evg) && mam_query_event(
                evg,
                self.active_qid(),
                Option::None,
                view_opt_str_ref(before),
                MAM_PAGE_SIZE,
            ));
        }
        Ok(())
    }

    /// Consume one archive page: persist every message idempotently and
    /// advance the page bookkeeping.
    #[verifier::loop_isolation(false)]
    pub fn apply_result_page(&mut self, store: &mut Store, messages: &Vec<ChatMessage>)
        requires
            old(self).has_active(),
            old(store).wf(),
        ensures
            final(store).wf(),
            final(store).messages() == insert_msgs_spec(
                old(store).messages(),
                msg_views(messages@),
            ),
            final(store).roster() == old(store).roster(),
            final(store).rooms() == old(store).rooms(),
            final(store).queue() == old(store).queue(),
            final(store).cursors() == old(store).cursors(),
            final(store).next_qid() == old(store).next_qid(),
            final(self).has_active(),
            final(self).active_is_catchup() == old(self).active_is_catchup(),
            final(self).active_qid() == old(self).active_qid(),
            old(self).active_is_catchup() ==> final(self).active_corr() == old(self).active_corr(),
            final(self).active_total() == sat_add_u64(
                old(self).active_total(),
                messages@.len() as int,
            ),
            final(self).active_page_count() == sat_add_u64(
                old(self).active_page_count(),
                messages@.len() as int,
            ),
            messages@.len() > 0 ==> final(self).active_page_last() == Option::Some(
                messages@.last()@.id,
            ),
            messages@.len() == 0 ==> final(self).active_page_last() == old(self).active_page_last(),
            final(self).active_after() == old(self).active_after(),
    {
        let n = messages.len();
        let ghost ms = msg_views(messages@);
        let mut i: usize = 0;
        while i < n
            invariant
                store.wf(),
                n == messages@.len(),
                i <= n,
                *self == *old(self),
                store.messages() == insert_msgs_spec(old(store).messages(), ms.take(i as int)),
                store.roster() == old(store).roster(),
                store.rooms() == old(store).rooms(),
                store.queue() == old(store).queue(),
                store.cursors() == old(store).cursors(),
                store.next_qid() == old(store).next_qid(),
            decreases n - i,
        {
            proof {
                assert(ms.len() == messages@.len());
                assert(ms[i as int] == messages@[i as int]@);
            }
            store.insert_message(&messages[i]);
            proof {
                assert(ms.take(i as int + 1).drop_last() =~= ms.take(i as int));
                assert(ms.take(i as int + 1).last() == ms[i as int]);
            }
            i += 1;
        }
        proof {
            assert(ms.take(n as int) =~= ms);
        }
        if let Some(sess) = &mut self.active {
            let count = n as u64;
            sess.total = if sess.total <= u64::MAX - count {
                sess.total + count
            } else {
                u64::MAX
            };
            sess.page_count = if sess.page_count <= u64::MAX - count {
                sess.page_count + count
            } else {
                u64::MAX
            };
            if n > 0 {
                sess.page_last = Some(messages[n - 1].id.clone());
            }
        }
    }

    /// Consume the final marker of a page. The cursor (catch-up only)
    /// moves to the page's last id — the marker's, or the last result's.
    /// The sync finishes when the server said the archive is complete or
    /// the page was empty, announcing `system.sync.completed` under the
    /// correlation id of its start; otherwise the next page query goes
    /// out.
    pub fn apply_fin(
        &mut self,
        store: &mut Store,
        bus: &mut BroadcastEventBus,
        complete: bool,
        fin_last: Option<&str>,
    ) -> (r: Option<MamSyncResult>)
        requires
            old(self).has_active(),
            old(store).wf(),
            old(bus).inv(),
            old(bus).room(1),
        ensures
            final(store).wf(),
            final(bus).inv(),
            final(store).messages() == old(store).messages(),
            final(store).roster() == old(store).roster(),
            final(store).rooms() == old(store).rooms(),
            final(store).queue() == old(store).queue(),
            final(store).next_qid() == old(store).next_qid(),
            fin_step(
                *old(self),
                *final(self),
                *old(store),
                *final(store),
                *old(bus),
                *final(bus),
                complete,
                view_opt_str_ref(fin_last),
                r,
            ),
    {
        let is_catchup = match &self.active {
            Some(sess) => matches!(sess.kind, SyncKind::CatchUp { .. }),
            None => false,
        };
        // Resolve the page's last id.
        let page_last: Option<String> = match fin_last {
            Some(l) => Some(l.to_owned()),
            None => {
                match &self.active {
                    Some(sess) => clone_opt_str(&sess.page_last),
                    None => None,
                }
            },
        };
        if is_catchup {
            if let Some(l) = &page_last {
                let now = now_millis();
                store.set_cursor("__global__", l.as_str(), now);
            }
        }
        let (finished, total) = match &self.active {
            Some(sess) => (complete || sess.page_count == 0, sess.total),
            None => (true, 0),
        };
        if finished {
            if is_catchup {
                let corr = match &self.active {
                    Some(sess) => {
                        match &sess.kind {
                            SyncKind::CatchUp { correlation_id } => correlation_id.clone(),
                            SyncKind::History => String::new(),
                        }
                    },
                    None => String::new(),
                };
                let ev = Event::with_correlation(
                    Channel::raw("system.sync.completed".to_owned()),
                    EventSource::System("mam".to_owned()),
                    EventPayload::SyncCompleted { messages_synced: total },
                    corr,
                );
                let ghost evg = ev;
                let _ = bus.publish(ev);
                proof {
                    assert(published_any(*old(bus), *bus, evg) && sync_completed_event(
                        evg,
                        old(self).active_total() as u64,
                        old(self).active_corr(),
                    ));
                }
            }
            self.active = None;
            Some(
                MamSyncResult {
                    messages_synced: total,
                    complete: is_catchup || complete,
                },
            )
        } else {
            // Ask for the next page, resuming after what we saw.
            if let Some(sess) = &mut self.active {
                if page_last.is_some() {
                    sess.after = clone_opt_str(&page_last);
                }
                sess.page_count = 0;
                sess.page_last = None;
            }
            let (qid, after) = match &self.active {
                Some(sess) => (sess.query_id.clone(), clone_opt_str(&sess.after)),
                None => (String::new(), None),
            };
            let ev = Event::new(
                Channel::raw("ui.mam.query".to_owned()),
                EventSource::System("mam".to_owned()),
                EventPayload::MamQueryRequested {
                    query_id: qid,
                    after,
                    before: None,
                    max: MAM_PAGE_SIZE,
                },
            );
            let ghost evg = ev;
            let _ = bus.publish(ev);
            proof {
                assert(published_any(*old(bus), *bus, evg) && mam_query_event(
                    evg,
                    old(self).active_qid(),
                    self.active_after(),
                    Option::None,
                    MAM_PAGE_SIZE,
                ));
            }
            None
        }
    }

    /// Poll the collector once: receive at most one event from the
    /// archive subscription and apply it. Result pages matching the
    /// session's query id are persisted; the final marker moves the
    /// cursor and either finishes the sync (returning its result) or
    /// emits the next page query. `Ok(None)` means the sync, if any, is
    /// still in progress; a closed bus fails the sync.
    pub fn pump(&mut self, store: &mut Store, bus: &mut BroadcastEventBus) -> (r: Result<
        Option<MamSyncResult>,
        MamError,
    >)
        requires
            old(store).wf(),
            old(bus).inv(),
            old(bus).room(1),
        ensures
            final(store).wf(),
            final(bus).inv(),
            final(store).roster() == old(store).roster(),
            final(store).rooms() == old(store).rooms(),
            final(store).queue() == old(store).queue(),
            final(store).next_qid() == old(store).next_qid(),
            // The message table grows only by idempotent inserts of
            // archived messages.
            exists|added: Seq<ChatMessageView>| final(store).messages() == #[trigger] insert_msgs_spec(
                old(store).messages(),
                added,
            ),
            !old(self).has_active() ==> r == Ok::<Option<MamSyncResult>, MamError>(None) && *final(self) == *old(self) && *final(store) == *old(store) && *final(bus) == *old(bus),
            // A continuing session keeps its identity: the query id, the
            // kind, and — for a catch-up — the correlation id that the
            // start marker carried.
            old(self).has_active() && final(self).has_active() ==> {
                &&& final(self).active_qid() == old(self).active_qid()
                &&& final(self).active_is_catchup() == old(self).active_is_catchup()
                &&& old(self).active_is_catchup() ==> final(self).active_corr() == old(
                    self,
                ).active_corr()
            },
            r matches Ok(Some(res)) ==> {
                &&& old(self).has_active()
                &&& !final(self).has_active()
                &&& old(self).active_is_catchup() ==> res.complete && exists|e: Event|
                    #[trigger] published_any(*old(bus), *final(bus), e) && sync_completed_event(
                        e,
                        res.messages_synced,
                        old(self).active_corr(),
                    )
            },
            r matches Err(err) ==> err matches MamError::QueryFailed(_) && !final(self).has_active(),
            // What one poll can do, tied to the event it consumed: either
            // nothing observable changed, or a received archive event was
            // applied — a result page for our query persisted, or a final
            // marker put through the fin step.
            old(self).has_active() && r is Ok ==> {
                ||| (r == Ok::<Option<MamSyncResult>, MamError>(None) && *final(store) == *old(
                    store,
                ) && *final(bus) == *old(bus) && final(self).has_active() && {
                    // No observable change happens only for a reason: the
                    // archive subscription is drained, a lag report was
                    // consumed (re-arming the cursor), or the one event
                    // received was neither a result page for this query
                    // nor a final marker.
                    ||| drained(final(self).active_sub(), *final(bus))
                    ||| exists|n: u64|
                        #[trigger] lagged_post(
                            old(self).active_sub(),
                            final(self).active_sub(),
                            *old(bus),
                            n,
                        )
                    ||| exists|e: Event, d: int, i: int|
                        #[trigger] recv_yields(
                            old(self).active_sub(),
                            final(self).active_sub(),
                            *old(bus),
                            d,
                            i,
                            e,
                        ) && result_page_for(e, old(self).active_qid()) is None && !(
                        e.payload is MamFinReceived)
                })
                ||| exists|e: Event, s1: EventSubscription, d: int, i: int|
                    {
                        &&& #[trigger] recv_yields(old(self).active_sub(), s1, *old(bus), d, i, e)
                        &&& match result_page_for(e, old(self).active_qid()) {
                            Option::Some(msgs) => {
                                &&& r == Ok::<Option<MamSyncResult>, MamError>(None)
                                &&& final(store).messages() == insert_msgs_spec(
                                    old(store).messages(),
                                    msgs,
                                )
                                &&& final(store).cursors() == old(store).cursors()
                                &&& *final(bus) == *old(bus)
                                &&& final(self).has_active()
                                &&& final(self).active_total() == sat_add_u64(
                                    old(self).active_total(),
                                    msgs.len() as int,
                                )
                            },
                            Option::None => {
                                e.payload matches EventPayload::MamFinReceived {
                                    complete,
                                    last_id,
                                    ..
                                } && fin_step(
                                    *old(self),
                                    *final(self),
                                    *old(store),
                                    *final(store),
                                    *old(bus),
                                    *final(bus),
                                    complete,
                                    view_opt_str(last_id),
                                    match r {
                                        Result::Ok(x) => x,
                                        Result::Err(_) => Option::None,
                                    },
                                )
                            },
                        }
                    }
            },
    {
        // Receive one event and take what the session needs out of it.
        let ghost mut consumed: Option<Event> = None;
        let ghost mut sub_after: EventSubscription = old(self).active_sub();
        let ghost mut lag_seen: bool = false;
        let ghost mut lag_n: u64 = 0;
        let action: Action = if let Some(sess) = &mut self.active {
            let received = sess.sub.recv(&*bus);
            proof {
                sub_after = sess.sub;
            }
            match received {
                Ok(Some(e)) => {
                    proof {
                        consumed = Some(*e);
                    }
                    match &e.payload {
                        EventPayload::MamResultReceived { query_id, messages, .. } => {
                            if str_eq(query_id.as_str(), sess.query_id.as_str()) {
                                Action::Page(clone_messages(messages))
                            } else {
                                proof {
                                    assert(result_page_for(*e, old(self).active_qid()) is None);
                                }
                                Action::Quiet
                            }
                        },
                        EventPayload::MamFinReceived { complete, last_id, .. } => Action::Fin {
                            complete: *complete,
                            last: clone_opt_str(last_id),
                        },
                        _ => {
                            proof {
                                assert(result_page_for(*e, old(self).active_qid()) is None);
                            }
                            Action::Quiet
                        },
                    }
                },
                Ok(None) => {
                    proof {
                        assert(drained(sub_after, *bus));
                    }
                    Action::Quiet
                },
                Err(crate::error::EventBusError::Lagged(n)) => {
                    proof {
                        lag_seen = true;
                        lag_n = n;
                        assert(lagged_post(old(self).active_sub(), sub_after, *old(bus), n));
                    }
                    Action::Quiet
                },
                Err(_) => Action::Failed,
            }
        } else {
            proof {
                assert(insert_msgs_spec(old(store).messages(), Seq::empty()) == old(
                    store,
                ).messages());
            }
            return Ok(None);
        };
        match action {
            Action::Quiet => {
                proof {
                    assert(insert_msgs_spec(old(store).messages(), Seq::empty()) == old(store).messages());
                    assert(self.active_sub() == sub_after);
                    if consumed is Some {
                        let e = consumed->Some_0;
                        assert(exists|d: int, i: int|
                            recv_yields(old(self).active_sub(), sub_after, *old(bus), d, i, e));
                    } else if lag_seen {
                        assert(lagged_post(
                            old(self).active_sub(),
                            self.active_sub(),
                            *old(bus),
                            lag_n,
                        ));
                    } else {
                        assert(drained(self.active_sub(), *bus));
                    }
                }
                Ok(None)
            },
            Action::Page(messages) => {
                self.apply_result_page(store, &messages);
                proof {
                    assert(store.messages() == insert_msgs_spec(
                        old(store).messages(),
                        msg_views(messages@),
                    ));
                    let e = consumed->Some_0;
                    assert(result_page_for(e, old(self).active_qid()) == Option::Some(
                        msg_views(messages@),
                    ));
                    assert(exists|d: int, i: int|
                        recv_yields(old(self).active_sub(), sub_after, *old(bus), d, i, e));
                }
                Ok(None)
            },
            Action::Fin { complete, last } => {
                let fin_last: Option<&str> = match &last {
                    Some(l) => Some(l.as_str()),
                    None => None,
                };
                let res = self.apply_fin(store, bus, complete, fin_last);
                proof {
                    assert(insert_msgs_spec(old(store).messages(), Seq::empty()) == old(
                        store,
                    ).messages());
                    let e = consumed->Some_0;
                    assert(view_opt_str_ref(fin_last) == view_opt_str(
                        e.payload->MamFinReceived_last_id,
                    ));
                    assert(fin_step(
                        *old(self),
                        *self,
                        *old(store),
                        *store,
                        *old(bus),
                        *bus,
                        complete,
                        view_opt_str(e.payload->MamFinReceived_last_id),
                        res,
                    ));
                    assert(exists|d: int, i: int|
                        recv_yields(old(self).active_sub(), sub_after, *old(bus), d, i, e));
                }
                Ok(res)
            },
            Action::Failed => {
                self.active = None;
                proof {
                    assert(insert_msgs_spec(old(store).messages(), Seq::empty()) == old(store).messages());
                }
                Err(MamError::QueryFailed("the event bus is closed".to_owned()))
            },
        }
    }

    /// React to one bus event. The intended catch-up trigger is our own
    /// presence turning available (which itself waits for the roster);
    /// an unavailable own presence never triggers a sync, and the raw
    /// connection signal is deliberately left to the presence pathway.
    /// An upward scroll fetches one page of history before the oldest
    /// stored message of the conversation.
    pub fn handle_event(&mut self, store: &mut Store, bus: &mut BroadcastEventBus, event: &Event)
        requires
            old(store).wf(),
            old(bus).inv(),
            old(bus).room(2),
        ensures
            final(store).wf(),
            final(bus).inv(),
            final(store).messages() == old(store).messages(),
            final(store).roster() == old(store).roster(),
            final(store).rooms() == old(store).rooms(),
            final(store).queue() == old(store).queue(),
            final(store).cursors() == old(store).cursors(),
            final(store).next_qid() == old(store).next_qid(),
            event.payload matches EventPayload::OwnPresenceChanged { show, .. } ==> (show
                != PresenceShow::Unavailable && glob_pattern_ok("xmpp.mam.**"@)) ==> {
                &&& final(self).has_active()
                &&& final(self).active_is_catchup()
                &&& exists|e1: Event, e2: Event|
                    #[trigger] published_two(*old(bus), *final(bus), e1, e2) && sync_started_event(
                        e1,
                        final(self).active_corr(),
                    ) && mam_query_event(
                        e2,
                        final(self).active_qid(),
                        cursor_of(old(store).cursors(), "__global__"@),
                        Option::None,
                        MAM_PAGE_SIZE,
                    )
            },
            event.payload matches EventPayload::OwnPresenceChanged { show, .. } && show
                == PresenceShow::Unavailable ==> *final(self) == *old(self) && *final(bus) == *old(bus),
            !mam_trigger(event.payload) ==> *final(self) == *old(self) && *final(bus) == *old(
                bus,
            ),
            event.payload matches EventPayload::ScrollRequested { jid, direction } ==> (direction
                == ScrollDirection::Up && glob_pattern_ok("xmpp.mam.**"@)) ==> {
                &&& final(self).has_active()
                &&& !final(self).active_is_catchup()
                &&& exists|e: Event|
                    #[trigger] published_any(*old(bus), *final(bus), e) && mam_query_event(
                        e,
                        final(self).active_qid(),
                        Option::None,
                        oldest_involving(old(store).messages(), jid@),
                        MAM_PAGE_SIZE,
                    )
            },
    {
        match &event.payload {
            EventPayload::OwnPresenceChanged { show, .. } => {
                let unavailable = matches!(show, PresenceShow::Unavailable);
                if !unavailable {
                    let now = now_millis();
                    let _ = self.sync_since(store, bus, now);
                }
            },
            EventPayload::ScrollRequested { jid, direction } => {
                let up = matches!(direction, ScrollDirection::Up);
                if up {
                    let before = store.oldest_message_id_with(jid.as_str());
                    let before_ref: Option<&str> = match &before {
                        Some(b) => Some(b.as_str()),
                        None => None,
                    };
                    proof {
                        assert(view_opt_str_ref(before_ref) == oldest_involving(
                            old(store).messages(),
                            jid@,
                        ));
                    }
                    let _ = self.fetch_history(bus, before_ref);
                }
            },
            _ => {},
        }
    }
}

} // verus!
