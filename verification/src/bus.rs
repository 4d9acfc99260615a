//! Domain-partitioned broadcast bus: four independent buffers, one per
//! channel domain, each retaining the last `capacity` events. A
//! subscription holds a compiled glob and one cursor per attached
//! buffer; it sees the events of one domain in publish order and reports
//! lag instead of silently dropping events.

use vstd::prelude::*;

use crate::channel::{domain_of, first_dot, first_dot_index};
use crate::error::EventBusError;
use crate::event::Event;
use crate::glob::{glob_match, glob_pattern_ok, CompiledGlob, GLOB_PATTERN_MAX};
use crate::strings::str_eq;

verus! {

/// Default number of retained events per domain buffer.
pub const DEFAULT_CHANNEL_CAPACITY: usize = 1024;

/// One domain's broadcast buffer: the retained tail of its event
/// history. `dropped` counts the events evicted so far, so the event at
/// absolute publish index `i` is `retained[i - dropped]`.
pub struct DomainBuffer {
    retained: Vec<Event>,
    dropped: u64,
    capacity: usize,
}

impl DomainBuffer {
    pub closed spec fn inv(self) -> bool {
        &&& self.capacity >= 1
        &&& self.retained@.len() <= self.capacity
        &&& self.dropped + self.retained@.len() <= u64::MAX
    }

    /// Count of events ever published to this buffer.
    pub closed spec fn total(self) -> int {
        self.dropped + self.retained@.len()
    }

    /// Absolute index of the oldest retained event.
    pub closed spec fn oldest(self) -> int {
        self.dropped as int
    }

    /// The event at absolute publish index `i`
    /// (meaningful for `oldest() <= i < total()`).
    pub closed spec fn event_at(self, i: int) -> Event {
        self.retained@[i - self.dropped]
    }

    pub closed spec fn cap(self) -> int {
        self.capacity as int
    }

    fn new(capacity: usize) -> (r: DomainBuffer)
        requires
            capacity >= 1,
        ensures
            r.inv(),
            r.total() == 0,
            r.oldest() == 0,
            r.cap() == capacity,
    {
        DomainBuffer { retained: Vec::new(), dropped: 0, capacity }
    }

    fn buf_publish(&mut self, e: Event)
        requires
            old(self).inv(),
            old(self).total() < u64::MAX,
        ensures
            final(self).inv(),
            buf_pushed(*old(self), *final(self), e),
    {
        if self.retained.len() == self.capacity {
            self.retained.remove(0);
            self.dropped = self.dropped + 1;
        }
        self.retained.push(e);
    }
}

/// `b1` is `b0` with `e` appended: one more event, the new event at the
/// old tail index, all still-retained events unchanged, and at most one
/// eviction.
pub open spec fn buf_pushed(b0: DomainBuffer, b1: DomainBuffer, e: Event) -> bool {
    &&& b1.cap() == b0.cap()
    &&& b1.total() == b0.total() + 1
    &&& b1.event_at(b0.total()) == e
    &&& b0.oldest() <= b1.oldest() <= b0.oldest() + 1
    &&& b1.oldest() <= b0.total()
    &&& forall|i: int| b1.oldest() <= i < b0.total() ==> b1.event_at(i) == b0.event_at(i)
}

/// Index of a domain name among the four buffers, or -1.
pub open spec fn domain_index(d: Seq<char>) -> int {
    if d == "system"@ {
        0
    } else if d == "xmpp"@ {
        1
    } else if d == "ui"@ {
        2
    } else if d == "plugin"@ {
        3
    } else {
        -1
    }
}

/// Which buffer an event is routed to, by its channel's domain.
pub open spec fn routes_to(e: Event) -> int {
    domain_index(domain_of(e.channel@))
}

/// Multi-producer broadcast of events with per-domain buffers.
pub struct BroadcastEventBus {
    system: DomainBuffer,
    xmpp: DomainBuffer,
    ui: DomainBuffer,
    plugin: DomainBuffer,
    closed: bool,
}

impl BroadcastEventBus {
    /// The buffer of domain `d` (0 system, 1 xmpp, 2 ui, 3 plugin).
    pub closed spec fn buf(self, d: int) -> DomainBuffer {
        if d == 0 {
            self.system
        } else if d == 1 {
            self.xmpp
        } else if d == 2 {
            self.ui
        } else {
            self.plugin
        }
    }

    pub closed spec fn is_closed(self) -> bool {
        self.closed
    }

    pub open spec fn inv(self) -> bool {
        forall|d: int| 0 <= d < 4 ==> (#[trigger] self.buf(d)).inv()
    }

    /// Every buffer can take `k` more events without exhausting its
    /// publish counter — a machine limit, not a design bound.
    pub open spec fn room(self, k: int) -> bool {
        forall|d: int| 0 <= d < 4 ==> (#[trigger] self.buf(d)).total() + k <= u64::MAX
    }

    pub fn new(channel_capacity: usize) -> (r: BroadcastEventBus)
        ensures
            r.inv(),
            !r.is_closed(),
            forall|d: int| 0 <= d < 4 ==> (#[trigger] r.buf(d)).total() == 0,
            forall|d: int| 0 <= d < 4 ==> (#[trigger] r.buf(d)).oldest() == 0,
            forall|d: int|
                0 <= d < 4 ==> (#[trigger] r.buf(d)).cap() == (if channel_capacity == 0 {
                    1int
                } else {
                    channel_capacity as int
                }),
    {
        let capacity = if channel_capacity == 0 {
            1
        } else {
            channel_capacity
        };
        BroadcastEventBus {
            system: DomainBuffer::new(capacity),
            xmpp: DomainBuffer::new(capacity),
            ui: DomainBuffer::new(capacity),
            plugin: DomainBuffer::new(capacity),
            closed: false,
        }
    }

    /// A bus with the default per-domain capacity.
    pub fn with_default_capacity() -> (r: BroadcastEventBus)
        ensures
            r.inv(),
            !r.is_closed(),
            forall|d: int| 0 <= d < 4 ==> (#[trigger] r.buf(d)).total() == 0,
            forall|d: int| 0 <= d < 4 ==> (#[trigger] r.buf(d)).oldest() == 0,
            forall|d: int| 0 <= d < 4 ==> (#[trigger] r.buf(d)).cap() == 1024,
    {
        Self::new(DEFAULT_CHANNEL_CAPACITY)
    }

    /// Mark the bus closed: subscribers that drain their buffers then
    /// receive `ChannelClosed`.
    pub fn close(&mut self)
        requires
            old(self).inv(),
        ensures
            final(self).inv(),
            final(self).is_closed(),
            forall|d: int| 0 <= d < 4 ==> #[trigger] final(self).buf(d) == old(self).buf(d),
    {
        self.closed = true;
        proof {
            assert forall|d: int| 0 <= d < 4 implies (#[trigger] self.buf(d)).inv() by {
                assert(old(self).buf(d).inv());
                assert(self.buf(d) == old(self).buf(d));
            }
        }
    }

    /// Publish an event: route it by its channel's domain to the
    /// matching buffer. Fails exactly when the domain is unknown; with
    /// no subscriber the event is still buffered (fire-and-forget).
    pub fn publish(&mut self, event: Event) -> (r: Result<(), EventBusError>)
        requires
            old(self).inv(),
            old(self).room(1),
        ensures
            final(self).inv(),
            r is Ok <==> 0 <= routes_to(event),
            r is Ok ==> published_one(*old(self), *final(self), event),
            r matches Err(e) ==> *final(self) == *old(self) && (e matches EventBusError::InvalidChannel(n)
                && n@ == event.channel@),
            published_any(*old(self), *final(self), event),
    {
        proof {
            assert(old(self).buf(0).inv());
            assert(old(self).buf(1).inv());
            assert(old(self).buf(2).inv());
            assert(old(self).buf(3).inv());
            assert(old(self).buf(0).total() + 1 <= u64::MAX);
            assert(old(self).buf(1).total() + 1 <= u64::MAX);
            assert(old(self).buf(2).total() + 1 <= u64::MAX);
            assert(old(self).buf(3).total() + 1 <= u64::MAX);
        }
        let is_sys: bool;
        let is_xmpp: bool;
        let is_ui: bool;
        let is_plugin: bool;
        {
            let dom = event.channel.domain();
            is_sys = str_eq(dom, "system");
            is_xmpp = str_eq(dom, "xmpp");
            is_ui = str_eq(dom, "ui");
            is_plugin = str_eq(dom, "plugin");
        }
        let r: Result<(), EventBusError> = if is_sys {
            self.system.buf_publish(event);
            Ok(())
        } else if is_xmpp {
            self.xmpp.buf_publish(event);
            Ok(())
        } else if is_ui {
            self.ui.buf_publish(event);
            Ok(())
        } else if is_plugin {
            self.plugin.buf_publish(event);
            Ok(())
        } else {
            let name = event.channel.as_str().to_owned();
            Err(EventBusError::InvalidChannel(name))
        };
        proof {
            assert forall|d: int| 0 <= d < 4 implies (#[trigger] self.buf(d)).inv() by {
                assert(old(self).buf(d).inv());
            }
        }
        r
    }

    /// Subscribe with a glob pattern over full channel names. A literal
    /// first segment naming a domain attaches to that buffer alone; a
    /// first segment with glob metacharacters attaches to all four.
    pub fn subscribe(&self, pattern: &str) -> (r: Result<EventSubscription, EventBusError>)
        requires
            self.inv(),
        ensures
            r is Ok <==> pattern@.len() <= GLOB_PATTERN_MAX && glob_pattern_ok(pattern@)
                && pattern_domains_ok(pattern@),
            r matches Ok(s) ==> {
                &&& s.pattern() == pattern@
                &&& forall|d: int|
                    0 <= d < 4 ==> (#[trigger] s.attached(d) <==> pattern_attaches(pattern@, d))
                &&& forall|d: int|
                    0 <= d < 4 && #[trigger] s.attached(d) ==> s.pos_at(d) == self.buf(d).total()
            },
            r matches Err(e) ==> e matches EventBusError::InvalidPattern(p) && p@ == pattern@,
    {
        proof {
            assert(self.buf(0).inv());
            assert(self.buf(1).inv());
            assert(self.buf(2).inv());
            assert(self.buf(3).inv());
        }
        if pattern.unicode_len() > GLOB_PATTERN_MAX {
            return Err(EventBusError::InvalidPattern(pattern.to_owned()));
        }
        let compiled = match CompiledGlob::compile(pattern) {
            Some(g) => g,
            None => {
                return Err(EventBusError::InvalidPattern(pattern.to_owned()));
            },
        };
        let fd = first_dot_index(pattern);
        let first = pattern.substring_char(0, fd);
        if first.unicode_len() == 0 {
            return Err(EventBusError::InvalidPattern(pattern.to_owned()));
        }
        if has_glob_meta(first) {
            return Ok(
                EventSubscription {
                    matcher: compiled,
                    pos_system: Some(self.system.total_count()),
                    pos_xmpp: Some(self.xmpp.total_count()),
                    pos_ui: Some(self.ui.total_count()),
                    pos_plugin: Some(self.plugin.total_count()),
                },
            );
        }
        if str_eq(first, "system") {
            Ok(
                EventSubscription {
                    matcher: compiled,
                    pos_system: Some(self.system.total_count()),
                    pos_xmpp: None,
                    pos_ui: None,
                    pos_plugin: None,
                },
            )
        } else if str_eq(first, "xmpp") {
            Ok(
                EventSubscription {
                    matcher: compiled,
                    pos_system: None,
                    pos_xmpp: Some(self.xmpp.total_count()),
                    pos_ui: None,
                    pos_plugin: None,
                },
            )
        } else if str_eq(first, "ui") {
            Ok(
                EventSubscription {
                    matcher: compiled,
                    pos_system: None,
                    pos_xmpp: None,
                    pos_ui: Some(self.ui.total_count()),
                    pos_plugin: None,
                },
            )
        } else if str_eq(first, "plugin") {
            Ok(
                EventSubscription {
                    matcher: compiled,
                    pos_system: None,
                    pos_xmpp: None,
                    pos_ui: None,
                    pos_plugin: Some(self.plugin.total_count()),
                },
            )
        } else {
            Err(EventBusError::InvalidPattern(pattern.to_owned()))
        }
    }
}

impl DomainBuffer {
    fn total_count(&self) -> (r: u64)
        requires
            self.inv(),
        ensures
            r == self.total(),
    {
        self.dropped + (self.retained.len() as u64)
    }
}

/// `b1` is `b0` with `e` published to the buffer its domain routes to,
/// the other buffers untouched.
pub open spec fn published_one(b0: BroadcastEventBus, b1: BroadcastEventBus, e: Event) -> bool {
    let d = routes_to(e);
    &&& 0 <= d < 4
    &&& buf_pushed(b0.buf(d), b1.buf(d), e)
    &&& forall|dd: int| 0 <= dd < 4 && dd != d ==> #[trigger] b1.buf(dd) == b0.buf(dd)
    &&& b1.is_closed() == b0.is_closed()
}

/// The effect of one `publish` call, routable or not: routed to its
/// domain's buffer, or — for an unknown domain — refused with the bus
/// unchanged.
pub open spec fn published_any(b0: BroadcastEventBus, b1: BroadcastEventBus, e: Event) -> bool {
    if 0 <= routes_to(e) {
        published_one(b0, b1, e)
    } else {
        b1 == b0
    }
}

/// The effect of publishing each event of `es` in order.
pub open spec fn published_seq(b0: BroadcastEventBus, b1: BroadcastEventBus, es: Seq<Event>) -> bool
    decreases es.len(),
{
    if es.len() == 0 {
        b1 == b0
    } else {
        exists|mid: BroadcastEventBus|
            #[trigger] published_any(b0, mid, es[0]) && published_seq(mid, b1, es.drop_first())
    }
}

/// Glob metacharacters: a first segment holding one attaches the
/// subscription to every domain buffer.
pub open spec fn is_glob_meta(c: char) -> bool {
    c == '*' || c == '?' || c == '[' || c == ']' || c == '{' || c == '}' || c == '!'
}

pub open spec fn contains_glob_meta(s: Seq<char>) -> bool {
    exists|i: int| 0 <= i < s.len() && is_glob_meta(#[trigger] s[i])
}

/// Whether a pattern segment contains glob metacharacters.
pub fn has_glob_meta(segment: &str) -> (r: bool)
    ensures
        r == contains_glob_meta(segment@),
{
    let n = segment.unicode_len();
    let mut i: usize = 0;
    while i < n
        invariant
            n == segment@.len(),
            i <= n,
            forall|j: int| 0 <= j < i ==> !is_glob_meta(#[trigger] segment@[j]),
        decreases n - i,
    {
        let c = segment.get_char(i);
        if c == '*' || c == '?' || c == '[' || c == ']' || c == '{' || c == '}' || c == '!' {
            return true;
        }
        i += 1;
    }
    false
}

/// The first dot-segment of a subscription pattern.
pub open spec fn pattern_first_segment(p: Seq<char>) -> Seq<char> {
    p.take(first_dot(p))
}

/// A pattern's first segment picks the buffers: it must be non-empty,
/// and either hold a glob metacharacter (all four buffers) or name a
/// domain (that buffer alone).
pub open spec fn pattern_domains_ok(p: Seq<char>) -> bool {
    &&& pattern_first_segment(p).len() > 0
    &&& (contains_glob_meta(pattern_first_segment(p)) || 0 <= domain_index(
        pattern_first_segment(p),
    ))
}

/// Whether a pattern attaches to domain `d`.
pub open spec fn pattern_attaches(p: Seq<char>, d: int) -> bool {
    contains_glob_meta(pattern_first_segment(p)) || domain_index(pattern_first_segment(p)) == d
}

/// A handle returned by `subscribe`: one cursor per attached buffer.
pub struct EventSubscription {
    matcher: CompiledGlob,
    pos_system: Option<u64>,
    pos_xmpp: Option<u64>,
    pos_ui: Option<u64>,
    pos_plugin: Option<u64>,
}

impl EventSubscription {
    /// The glob pattern this subscription filters with.
    pub closed spec fn pattern(self) -> Seq<char> {
        self.matcher.pattern()
    }

    pub closed spec fn pos_opt(self, d: int) -> Option<u64> {
        if d == 0 {
            self.pos_system
        } else if d == 1 {
            self.pos_xmpp
        } else if d == 2 {
            self.pos_ui
        } else {
            self.pos_plugin
        }
    }

    /// Whether this subscription listens on domain `d`.
    pub open spec fn attached(self, d: int) -> bool {
        self.pos_opt(d) is Some
    }

    /// The cursor on domain `d`: the absolute publish index of the next
    /// event this subscriber will consider.
    pub open spec fn pos_at(self, d: int) -> int {
        match self.pos_opt(d) {
            Some(p) => p as int,
            None => 0,
        }
    }

    /// Receive the next matching event, polling the attached buffers in
    /// a fixed order. Non-matching events are skipped permanently.
    /// Returns `Ok(None)` when no attached buffer holds a matching
    /// event, `Lagged` when this subscriber fell behind a buffer's
    /// retained window, and `ChannelClosed` when the bus is closed and
    /// drained.
    pub fn recv<'a>(&mut self, bus: &'a BroadcastEventBus) -> (r: Result<
        Option<&'a Event>,
        EventBusError,
    >)
        requires
            bus.inv(),
        ensures
            sub_monotone(*old(self), *final(self), *bus),
            r matches Ok(Some(e)) ==> exists|d: int, i: int|
                recv_yields(*old(self), *final(self), *bus, d, i, *e),
            r matches Ok(None) ==> !bus.is_closed() && drained(*final(self), *bus),
            r matches Err(err) ==> (err matches EventBusError::Lagged(n) ==> lagged_post(
                *old(self),
                *final(self),
                *bus,
                n,
            )),
            r matches Err(err) ==> (err == EventBusError::ChannelClosed ==> bus.is_closed()
                && drained(*final(self), *bus)),
            r matches Err(err) ==> (err matches EventBusError::Lagged(n)
                || err == EventBusError::ChannelClosed),
    {
        let mut d: usize = 0;
        while d < 4
            invariant
                bus.inv(),
                d <= 4,
                sub_monotone(*old(self), *self, *bus),
                self.matcher == old(self).matcher,
                forall|dd: int| d <= dd < 4 ==> #[trigger] self.pos_opt(dd) == old(self).pos_opt(dd),
                forall|dd: int| 0 <= dd < d && self.attached(dd) ==> #[trigger] domain_drained(
                    *self,
                    *bus,
                    dd,
                ),
            decreases 4 - d,
        {
            let cur: Option<u64> = if d == 0 {
                self.pos_system
            } else if d == 1 {
                self.pos_xmpp
            } else if d == 2 {
                self.pos_ui
            } else {
                self.pos_plugin
            };
            if let Some(pos) = cur {
                let buf: &DomainBuffer = if d == 0 {
                    &bus.system
                } else if d == 1 {
                    &bus.xmpp
                } else if d == 2 {
                    &bus.ui
                } else {
                    &bus.plugin
                };
                proof {
                    assert(*buf == bus.buf(d as int));
                    assert(bus.buf(d as int).inv());
                    assert(self.pos_opt(d as int) == Some(pos));
                    assert(old(self).pos_opt(d as int) == Some(pos));
                }
                match scan_buffer(buf, &self.matcher, pos) {
                    ScanOutcome::Lagged { skipped, newpos } => {
                        let ghost pre = *self;
                        self.set_pos(d, newpos);
                        proof {
                            lemma_monotone_step(*old(self), pre, *self, *bus, d as int, newpos);
                            assert(recv_lagged(*old(self), *self, *bus, d as int, skipped as int));
                            assert(lagged_post(*old(self), *self, *bus, skipped));
                        }
                        return Err(EventBusError::Lagged(skipped));
                    },
                    ScanOutcome::Found { idx, newpos } => {
                        let ghost pre = *self;
                        self.set_pos(d, newpos);
                        let e: &Event = &buf.retained[idx];
                        proof {
                            lemma_monotone_step(*old(self), pre, *self, *bus, d as int, newpos);
                            assert(recv_yields(
                                *old(self),
                                *self,
                                *bus,
                                d as int,
                                buf.oldest() + idx,
                                *e,
                            ));
                        }
                        return Ok(Some(e));
                    },
                    ScanOutcome::Exhausted { newpos } => {
                        let ghost pre = *self;
                        self.set_pos(d, newpos);
                        proof {
                            lemma_monotone_step(*old(self), pre, *self, *bus, d as int, newpos);
                            assert forall|dd: int|
                                0 <= dd <= d && self.attached(dd) implies #[trigger] domain_drained(
                                *self,
                                *bus,
                                dd,
                            ) by {
                                if dd != d as int {
                                    assert(self.pos_opt(dd) == pre.pos_opt(dd));
                                    assert(domain_drained(pre, *bus, dd));
                                }
                            }
                        }
                    },
                }
            }
            d += 1;
        }
        if bus.closed {
            Err(EventBusError::ChannelClosed)
        } else {
            Ok(None)
        }
    }

    fn set_pos(&mut self, d: usize, p: u64)
        requires
            d < 4,
            old(self).attached(d as int),
        ensures
            final(self).pos_opt(d as int) == Some(p),
            final(self).matcher == old(self).matcher,
            forall|dd: int| 0 <= dd < 4 && dd != d ==> #[trigger] final(self).pos_opt(dd) == old(
                self,
            ).pos_opt(dd),
    {
        if d == 0 {
            self.pos_system = Some(p);
        } else if d == 1 {
            self.pos_xmpp = Some(p);
        } else if d == 2 {
            self.pos_ui = Some(p);
        } else {
            self.pos_plugin = Some(p);
        }
    }
}

/// A reception: the subscriber took the event at absolute index `i` of
/// domain `d`, it matches the pattern, no earlier retained event past
/// the old cursor matched, and the cursor now stands just past `i`.
pub open spec fn recv_yields(
    s0: EventSubscription,
    s1: EventSubscription,
    bus: BroadcastEventBus,
    d: int,
    i: int,
    e: Event,
) -> bool {
    &&& 0 <= d < 4
    &&& s0.attached(d)
    &&& s0.pos_at(d) <= i < bus.buf(d).total()
    &&& bus.buf(d).oldest() <= i
    &&& e == bus.buf(d).event_at(i)
    &&& glob_match(s0.pattern(), e.channel@)
    &&& s1.pos_at(d) == i + 1
    &&& s1.attached(d)
    &&& forall|j: int|
        s0.pos_at(d) <= j < i && bus.buf(d).oldest() <= j ==> !glob_match(
            s0.pattern(),
            (#[trigger] bus.buf(d).event_at(j)).channel@,
        )
}

/// A lag report on domain `d`: the old cursor fell below the oldest
/// retained event; `n` events were skipped and the cursor is re-armed
/// at the oldest retained position.
pub open spec fn recv_lagged(
    s0: EventSubscription,
    s1: EventSubscription,
    bus: BroadcastEventBus,
    d: int,
    n: int,
) -> bool {
    &&& 0 <= d < 4
    &&& s0.attached(d)
    &&& s0.pos_at(d) < bus.buf(d).oldest()
    &&& n == bus.buf(d).oldest() - s0.pos_at(d)
    &&& s1.attached(d)
    &&& s1.pos_at(d) == bus.buf(d).oldest()
}

/// Some domain reported the lag `n`.
pub open spec fn lagged_post(
    s0: EventSubscription,
    s1: EventSubscription,
    bus: BroadcastEventBus,
    n: u64,
) -> bool {
    exists|d: int| recv_lagged(s0, s1, bus, d, n as int)
}

/// Cursors only move forward (when they were within the buffer), and
/// attachments never change.
pub open spec fn sub_monotone(
    s0: EventSubscription,
    s1: EventSubscription,
    bus: BroadcastEventBus,
) -> bool {
    &&& s1.pattern() == s0.pattern()
    &&& forall|d: int| 0 <= d < 4 ==> (#[trigger] s1.attached(d) <==> s0.attached(d))
    &&& forall|d: int|
        0 <= d < 4 && s0.attached(d) && s0.pos_at(d) <= bus.buf(d).total() ==> #[trigger] s1.pos_at(
            d,
        ) >= s0.pos_at(d)
    &&& forall|d: int|
        0 <= d < 4 && s0.attached(d) && s0.pos_at(d) <= bus.buf(d).total() ==> #[trigger] s1.pos_at(
            d,
        ) <= bus.buf(d).total()
}

/// Domain `d` holds no matching event at or past the cursor.
pub open spec fn domain_drained(s: EventSubscription, bus: BroadcastEventBus, d: int) -> bool {
    &&& s.pos_at(d) == bus.buf(d).total()
}

/// Every attached domain is drained.
pub open spec fn drained(s: EventSubscription, bus: BroadcastEventBus) -> bool {
    forall|d: int| 0 <= d < 4 && s.attached(d) ==> #[trigger] domain_drained(s, bus, d)
}

/// One cursor step preserves monotonicity: the new state moves cursor
/// `d` to `newpos` (forward, and within the buffer, whenever the old
/// cursor was within the buffer) and leaves the other cursors alone.
proof fn lemma_monotone_step(
    s_old: EventSubscription,
    pre: EventSubscription,
    cur: EventSubscription,
    bus: BroadcastEventBus,
    d: int,
    newpos: u64,
)
    requires
        sub_monotone(s_old, pre, bus),
        0 <= d < 4,
        pre.attached(d),
        cur.pos_opt(d) == Some(newpos),
        cur.matcher == pre.matcher,
        forall|dd: int| 0 <= dd < 4 && dd != d ==> #[trigger] cur.pos_opt(dd) == pre.pos_opt(dd),
        pre.pos_at(d) <= bus.buf(d).total() ==> pre.pos_at(d) <= newpos,
        newpos <= bus.buf(d).total(),
    ensures
        sub_monotone(s_old, cur, bus),
{
    assert forall|dd: int| 0 <= dd < 4 implies (#[trigger] cur.attached(dd) <==> s_old.attached(
        dd,
    )) by {
        assert(pre.attached(dd) <==> s_old.attached(dd));
        if dd != d {
            assert(cur.pos_opt(dd) == pre.pos_opt(dd));
        }
    }
    assert forall|dd: int|
        0 <= dd < 4 && s_old.attached(dd) && s_old.pos_at(dd) <= bus.buf(dd).total() implies (
    #[trigger] cur.pos_at(dd)) >= s_old.pos_at(dd) && cur.pos_at(dd) <= bus.buf(dd).total() by {
        assert(pre.pos_at(dd) >= s_old.pos_at(dd));
        assert(pre.pos_at(dd) <= bus.buf(dd).total());
        if dd != d {
            assert(cur.pos_opt(dd) == pre.pos_opt(dd));
        }
    }
}

enum ScanOutcome {
    Lagged { skipped: u64, newpos: u64 },
    Found { idx: usize, newpos: u64 },
    Exhausted { newpos: u64 },
}

/// Scan one buffer from absolute position `pos`: report lag, the first
/// matching retained event, or exhaustion. A position past the tail
/// (possible only if the cursor was made against another bus) is
/// treated as the tail.
fn scan_buffer(buf: &DomainBuffer, g: &CompiledGlob, pos: u64) -> (r: ScanOutcome)
    requires
        buf.inv(),
    ensures
        match r {
            ScanOutcome::Lagged { skipped, newpos } => {
                &&& pos < buf.oldest()
                &&& skipped == buf.oldest() - pos
                &&& newpos == buf.oldest()
            },
            ScanOutcome::Found { idx, newpos } => {
                &&& pos >= buf.oldest()
                &&& idx < buf.retained@.len()
                &&& buf.oldest() + idx < buf.total()
                &&& pos <= buf.oldest() + idx
                &&& newpos == buf.oldest() + idx + 1
                &&& glob_match(g.pattern(), buf.event_at(buf.oldest() + idx).channel@)
                &&& buf.retained@[idx as int] == buf.event_at(buf.oldest() + idx)
                &&& forall|j: int|
                    pos <= j < buf.oldest() + idx && buf.oldest() <= j ==> !glob_match(
                        g.pattern(),
                        (#[trigger] buf.event_at(j)).channel@,
                    )
            },
            ScanOutcome::Exhausted { newpos } => {
                &&& pos >= buf.oldest()
                &&& newpos == buf.total()
                &&& forall|j: int|
                    pos <= j < buf.total() && buf.oldest() <= j ==> !glob_match(
                        g.pattern(),
                        (#[trigger] buf.event_at(j)).channel@,
                    )
            },
        },
{
    if pos < buf.dropped {
        let skipped = buf.dropped - pos;
        return ScanOutcome::Lagged { skipped, newpos: buf.dropped };
    }
    let len = buf.retained.len();
    let rel = pos - buf.dropped;
    if rel >= len as u64 {
        // At (or, against a foreign bus, past) the tail.
        return ScanOutcome::Exhausted { newpos: buf.dropped + len as u64 };
    }
    let mut idx: usize = rel as usize;
    while idx < len
        invariant
            buf.inv(),
            len == buf.retained@.len(),
            pos >= buf.oldest(),
            rel == pos - buf.dropped,
            rel <= idx <= len,
            forall|j: int|
                pos <= j < buf.oldest() + idx ==> !glob_match(
                    g.pattern(),
                    (#[trigger] buf.event_at(j)).channel@,
                ),
        decreases len - idx,
    {
        if g.is_match(buf.retained[idx].channel.as_str()) {
            return ScanOutcome::Found { idx, newpos: buf.dropped + idx as u64 + 1 };
        }
        idx += 1;
    }
    ScanOutcome::Exhausted { newpos: buf.dropped + len as u64 }
}

/// Publish-then-subscribe ordering: a subscriber that receives two
/// events of one domain receives them in publish order. Each reception
/// leaves the cursor strictly past the received event's publish index,
/// and cursors never move back, so the second reception's index is
/// strictly larger.
pub proof fn lemma_subscriber_receives_in_publish_order(
    s0: EventSubscription,
    s1: EventSubscription,
    s2: EventSubscription,
    bus_a: BroadcastEventBus,
    bus_b: BroadcastEventBus,
    d: int,
    i1: int,
    i2: int,
    e1: Event,
    e2: Event,
)
    requires
        recv_yields(s0, s1, bus_a, d, i1, e1),
        recv_yields(s1, s2, bus_b, d, i2, e2),
    ensures
        i1 < i2,
{
}

/// The same ordering across any interleaving: if between two receptions
/// of domain `d` the cursor on `d` did not move backwards — which
/// `sub_monotone`, ensured by every `recv`, gives across any run of
/// intervening receptions — then the second reception's publish index is
/// strictly larger than the first's.
pub proof fn lemma_receptions_ordered(
    sa0: EventSubscription,
    sa1: EventSubscription,
    bus_a: BroadcastEventBus,
    sb0: EventSubscription,
    sb1: EventSubscription,
    bus_b: BroadcastEventBus,
    d: int,
    i1: int,
    i2: int,
    e1: Event,
    e2: Event,
)
    requires
        recv_yields(sa0, sa1, bus_a, d, i1, e1),
        recv_yields(sb0, sb1, bus_b, d, i2, e2),
        sb0.pos_at(d) >= sa1.pos_at(d),
    ensures
        i1 < i2,
{
}

/// Publishing preserves the events already in a buffer: the event at a
/// still-retained publish index is unchanged, so publish order is
/// stable under later publishes.
pub proof fn lemma_publish_preserves_retained(
    b0: BroadcastEventBus,
    b1: BroadcastEventBus,
    e: Event,
    d: int,
    i: int,
)
    requires
        published_one(b0, b1, e),
        0 <= d < 4,
        b1.buf(d).oldest() <= i < b0.buf(d).total(),
        b0.buf(d).oldest() <= i,
    ensures
        b1.buf(d).event_at(i) == b0.buf(d).event_at(i),
{
}


/// Two events published in order.
pub open spec fn published_two(
    b0: BroadcastEventBus,
    b1: BroadcastEventBus,
    e1: Event,
    e2: Event,
) -> bool {
    exists|m: BroadcastEventBus| #[trigger] published_any(b0, m, e1) && published_any(m, b1, e2)
}

/// Three events published in order.
pub open spec fn published_three(
    b0: BroadcastEventBus,
    b1: BroadcastEventBus,
    e1: Event,
    e2: Event,
    e3: Event,
) -> bool {
    exists|m: BroadcastEventBus| #[trigger] published_two(b0, m, e1, e2) && published_any(m, b1, e3)
}

pub proof fn lemma_published_seq_empty(b: BroadcastEventBus)
    ensures
        published_seq(b, b, Seq::empty()),
{
}

/// Appending one more publish to a published sequence.
pub proof fn lemma_published_seq_snoc(
    b0: BroadcastEventBus,
    b1: BroadcastEventBus,
    b2: BroadcastEventBus,
    es: Seq<Event>,
    e: Event,
)
    requires
        published_seq(b0, b1, es),
        published_any(b1, b2, e),
    ensures
        published_seq(b0, b2, es.push(e)),
    decreases es.len(),
{
    if es.len() == 0 {
        assert(b1 == b0);
        assert(es.push(e)[0] == e);
        assert(es.push(e).drop_first() =~= Seq::<Event>::empty());
        lemma_published_seq_empty(b2);
        assert(published_any(b0, b2, e) && published_seq(b2, b2, es.push(e).drop_first()));
    } else {
        let m = choose|m: BroadcastEventBus|
            #[trigger] published_any(b0, m, es[0]) && published_seq(m, b1, es.drop_first());
        lemma_published_seq_snoc(m, b1, b2, es.drop_first(), e);
        assert(es.push(e)[0] == es[0]);
        assert(es.push(e).drop_first() =~= es.drop_first().push(e));
        assert(published_any(b0, m, es.push(e)[0]) && published_seq(m, b2, es.push(e).drop_first()));
    }
}

/// Publishing one event consumes at most one unit of headroom.
pub proof fn lemma_room_after_publish(
    b0: BroadcastEventBus,
    b1: BroadcastEventBus,
    e: Event,
    k: int,
)
    requires
        b0.room(k),
        published_any(b0, b1, e),
        k >= 1,
    ensures
        b1.room(k - 1),
{
    assert forall|d: int| 0 <= d < 4 implies (#[trigger] b1.buf(d)).total() + (k - 1)
        <= u64::MAX by {
        assert(b0.buf(d).total() + k <= u64::MAX);
        if 0 <= routes_to(e) {
            if d == routes_to(e) {
                assert(buf_pushed(b0.buf(d), b1.buf(d), e));
            } else {
                assert(b1.buf(d) == b0.buf(d));
            }
        }
    }
}

} // verus!
