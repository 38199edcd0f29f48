//! The event pipeline: a bounded queue of loggable events that decouples
//! policy decisions from storage writes, plus the application of one
//! drained event to the tracking store. A full queue drops the event and
//! counts the drop; delivery is at most once.

use vstd::prelude::*;

use crate::store::CookieRecord;
use crate::store::FingerprintRecord;
use crate::store::RequestRecord;
use crate::store::TrackingStore;

verus! {

/// A loggable event produced on the request or response path.
#[derive(Debug)]
pub enum LogEvent {
    /// A cookie was processed (and possibly blocked).
    Cookie { domain: String, cookie: String, blocked: bool },
    /// A fingerprint rotation occurred.
    Fingerprint { user_agent: String, accept_language: String, mode: String },
    /// A request was proxied.
    Request { domain: String, path: String, user_agent: String, client_ip: String },
    /// A tracking domain was hit.
    TrackerHit { domain: String, category: Option<String> },
}

/// The mathematical content of a LogEvent.
pub enum EventView {
    Cookie { domain: Seq<char>, cookie: Seq<char>, blocked: bool },
    Fingerprint { user_agent: Seq<char>, accept_language: Seq<char>, mode: Seq<char> },
    Request { domain: Seq<char>, path: Seq<char>, user_agent: Seq<char>, client_ip: Seq<char> },
    TrackerHit { domain: Seq<char>, category: Option<Seq<char>> },
}

impl View for LogEvent {
    type V = EventView;

    open spec fn view(&self) -> EventView {
        match *self {
            LogEvent::Cookie { domain, cookie, blocked } => EventView::Cookie {
                domain: domain@,
                cookie: cookie@,
                blocked: blocked,
            },
            LogEvent::Fingerprint { user_agent, accept_language, mode } => EventView::Fingerprint {
                user_agent: user_agent@,
                accept_language: accept_language@,
                mode: mode@,
            },
            LogEvent::Request { domain, path, user_agent, client_ip } => EventView::Request {
                domain: domain@,
                path: path@,
                user_agent: user_agent@,
                client_ip: client_ip@,
            },
            LogEvent::TrackerHit { domain, category } => EventView::TrackerHit {
                domain: domain@,
                category: category.deep_view(),
            },
        }
    }
}

/// The mathematical content of the queue: the pending events in arrival
/// order, the capacity, and how many events were dropped against a full
/// queue.
pub struct QueueModel {
    pub events: Seq<EventView>,
    pub cap: nat,
    pub dropped: u64,
}

/// A drop counter one higher, held at the ceiling once reached.
pub open spec fn sat_inc(x: u64) -> u64 {
    if x < u64::MAX {
        (x + 1) as u64
    } else {
        u64::MAX
    }
}

/// What one offered event does to the queue: appended when there is
/// room, otherwise dropped and counted.
pub open spec fn offer(m: QueueModel, e: EventView) -> QueueModel {
    if m.events.len() < m.cap {
        QueueModel { events: m.events.push(e), cap: m.cap, dropped: m.dropped }
    } else {
        QueueModel { events: m.events, cap: m.cap, dropped: sat_inc(m.dropped) }
    }
}

/// A sequence of offers, in order.
pub open spec fn offer_all(m: QueueModel, evs: Seq<EventView>) -> QueueModel
    decreases evs.len(),
{
    if evs.len() == 0 {
        m
    } else {
        offer(offer_all(m, evs.drop_last()), evs.last())
    }
}

/// Offering one more event extends the chain of offers by one.
pub proof fn lemma_offer_all_push(m: QueueModel, evs: Seq<EventView>, e: EventView)
    ensures
        offer_all(m, evs.push(e)) == offer(offer_all(m, evs), e),
{
    assert(evs.push(e).drop_last() =~= evs);
    assert(evs.push(e).last() == e);
}

/// Bounded multi-producer queue of events awaiting storage. Producers
/// never wait on storage; a full queue drops the event and counts it.
pub struct EventQueue {
    /// Pending events, oldest first.
    pub items: Vec<LogEvent>,
    /// Bound on the number of pending events.
    pub capacity: usize,
    /// How many events were dropped against a full queue.
    pub dropped: u64,
}

impl View for EventQueue {
    type V = QueueModel;

    open spec fn view(&self) -> QueueModel {
        QueueModel {
            events: views_of(self.items@),
            cap: self.capacity as nat,
            dropped: self.dropped,
        }
    }
}

/// The views of a sequence of events, in order.
pub open spec fn views_of(s: Seq<LogEvent>) -> Seq<EventView>
    decreases s.len(),
{
    if s.len() == 0 {
        Seq::empty()
    } else {
        views_of(s.drop_last()).push(s.last()@)
    }
}

/// There are as many event views as events.
pub proof fn lemma_views_of_len(s: Seq<LogEvent>)
    ensures
        views_of(s).len() == s.len(),
    decreases s.len(),
{
    if s.len() > 0 {
        lemma_views_of_len(s.drop_last());
    }
}

/// One more event is one more view.
proof fn lemma_views_of_push(s: Seq<LogEvent>, e: LogEvent)
    ensures
        views_of(s.push(e)) == views_of(s).push(e@),
{
    assert(s.push(e).drop_last() =~= s);
    assert(s.push(e).last() == e);
}

/// Taking the oldest event leaves the views of the rest.
proof fn lemma_views_of_skip_first(s: Seq<LogEvent>)
    requires
        s.len() > 0,
    ensures
        views_of(s.subrange(1, s.len() as int)) == views_of(s).subrange(1, views_of(s).len() as int),
        views_of(s)[0] == s[0]@,
    decreases s.len(),
{
    lemma_views_of_len(s);
    if s.len() == 1 {
        assert(s.drop_last() =~= Seq::<LogEvent>::empty());
        assert(s.subrange(1, 1) =~= Seq::<LogEvent>::empty());
        assert(views_of(s) =~= Seq::<EventView>::empty().push(s[0]@));
        assert(views_of(s).subrange(1, 1) =~= Seq::<EventView>::empty());
    } else {
        lemma_views_of_skip_first(s.drop_last());
        lemma_views_of_len(s.drop_last());
        let t = s.subrange(1, s.len() as int);
        assert(t.drop_last() =~= s.drop_last().subrange(1, s.drop_last().len() as int));
        assert(t.last() == s.last());
        assert(views_of(t) == views_of(t.drop_last()).push(t.last()@));
        assert(views_of(s).subrange(1, views_of(s).len() as int) =~= views_of(s.drop_last()).subrange(
            1,
            views_of(s.drop_last()).len() as int,
        ).push(s.last()@));
        assert(views_of(s)[0] == views_of(s.drop_last())[0]);
    }
}

impl EventQueue {
    /// An empty queue with the given capacity.
    pub fn new(capacity: usize) -> (r: Self)
        ensures
            r@.events.len() == 0,
            r@.cap == capacity,
            r@.dropped == 0,
    {
        EventQueue { items: Vec::new(), capacity, dropped: 0 }
    }

    /// How many events are pending.
    pub fn len(&self) -> (r: usize)
        ensures
            r == self@.events.len(),
    {
        proof {
            lemma_views_of_len(self.items@);
        }
        self.items.len()
    }

    /// How many events were dropped against a full queue.
    pub fn dropped_count(&self) -> (r: u64)
        ensures
            r == self@.dropped,
    {
        self.dropped
    }

    /// Offers an event: appended when there is room, otherwise dropped
    /// and counted. Reports whether the event was accepted.
    pub fn enqueue(&mut self, e: LogEvent) -> (accepted: bool)
        ensures
            final(self)@ == offer(old(self)@, e@),
            accepted == (old(self)@.events.len() < old(self)@.cap),
    {
        proof {
            lemma_views_of_len(self.items@);
        }
        if self.items.len() < self.capacity {
            proof {
                lemma_views_of_push(self.items@, e);
            }
            self.items.push(e);
            true
        } else {
            if self.dropped < u64::MAX {
                self.dropped = self.dropped + 1;
            }
            false
        }
    }

    /// Takes the oldest pending event, if any.
    pub fn dequeue(&mut self) -> (r: Option<LogEvent>)
        ensures
            final(self)@.cap == old(self)@.cap,
            final(self)@.dropped == old(self)@.dropped,
            old(self)@.events.len() == 0 ==> r is None && final(self)@.events == old(self)@.events,
            old(self)@.events.len() > 0 ==> (match r {
                Some(e) => e@ == old(self)@.events[0] && final(self)@.events == old(self)@.events.subrange(
                    1,
                    old(self)@.events.len() as int,
                ),
                None => false,
            }),
    {
        proof {
            lemma_views_of_len(self.items@);
        }
        if self.items.len() == 0 {
            None
        } else {
            proof {
                lemma_views_of_skip_first(self.items@);
                assert(self.items@.remove(0) =~= self.items@.subrange(1, self.items@.len() as int));
            }
            Some(self.items.remove(0))
        }
    }
}

/// Applies one drained event to the store, as the pipeline consumer
/// does: cookie, fingerprint and request events are appended to their
/// logs with the given timestamp; a tracker hit bumps the domain's
/// counter.
pub fn apply_event(store: &mut TrackingStore, event: LogEvent, now: u64)
    requires
        old(store).wf(),
        (match event {
            LogEvent::TrackerHit { ref domain, .. } => old(store).hit_count_of(domain@) < u64::MAX,
            _ => true,
        }),
    ensures
        final(store).wf(),
        (match event@ {
            EventView::Cookie { domain, cookie, blocked } => {
                &&& final(store).cookie_log@.len() == old(store).cookie_log@.len() + 1
                &&& final(store).cookie_log@.subrange(0, old(store).cookie_log@.len() as int)
                    == old(store).cookie_log@
                &&& final(store).cookie_log@.last().0 == now
                &&& final(store).cookie_log@.last().1.domain@ == domain
                &&& final(store).cookie_log@.last().1.cookie@ == cookie
                &&& final(store).cookie_log@.last().1.blocked == blocked
                &&& final(store).tracking == old(store).tracking
                &&& final(store).whitelist == old(store).whitelist
                &&& final(store).fingerprint_log == old(store).fingerprint_log
                &&& final(store).request_log == old(store).request_log
            },
            EventView::Fingerprint { user_agent, accept_language, mode } => {
                &&& final(store).fingerprint_log@.len() == old(store).fingerprint_log@.len() + 1
                &&& final(store).fingerprint_log@.subrange(0, old(store).fingerprint_log@.len() as int)
                    == old(store).fingerprint_log@
                &&& final(store).fingerprint_log@.last().0 == now
                &&& final(store).fingerprint_log@.last().1.user_agent@ == user_agent
                &&& final(store).fingerprint_log@.last().1.accept_language@ == accept_language
                &&& final(store).fingerprint_log@.last().1.mode@ == mode
                &&& final(store).tracking == old(store).tracking
                &&& final(store).whitelist == old(store).whitelist
                &&& final(store).cookie_log == old(store).cookie_log
                &&& final(store).request_log == old(store).request_log
            },
            EventView::Request { domain, path, user_agent, client_ip } => {
                &&& final(store).request_log@.len() == old(store).request_log@.len() + 1
                &&& final(store).request_log@.subrange(0, old(store).request_log@.len() as int)
                    == old(store).request_log@
                &&& final(store).request_log@.last().0 == now
                &&& final(store).request_log@.last().1.domain@ == domain
                &&& final(store).request_log@.last().1.path@ == path
                &&& final(store).request_log@.last().1.user_agent@ == user_agent
                &&& final(store).request_log@.last().1.client_ip@ == client_ip
                &&& final(store).tracking == old(store).tracking
                &&& final(store).whitelist == old(store).whitelist
                &&& final(store).cookie_log == old(store).cookie_log
                &&& final(store).fingerprint_log == old(store).fingerprint_log
            },
            EventView::TrackerHit { domain, category } => {
                &&& final(store).has_tracked(domain)
                &&& final(store).hit_count_of(domain) == old(store).hit_count_of(domain) + 1
                &&& final(store).blocked_of(domain) == old(store).blocked_of(domain)
                &&& (forall|d: Seq<char>| d != domain
                    ==> final(store).hit_count_of(d) == old(store).hit_count_of(d))
                &&& (forall|d: Seq<char>| d != domain
                    ==> final(store).blocked_of(d) == old(store).blocked_of(d))
                &&& final(store).whitelist == old(store).whitelist
                &&& final(store).cookie_log == old(store).cookie_log
                &&& final(store).fingerprint_log == old(store).fingerprint_log
                &&& final(store).request_log == old(store).request_log
            },
        }),
{
    match event {
        LogEvent::Cookie { domain, cookie, blocked } => {
            store.log_cookie(now, domain, cookie, blocked);
        },
        LogEvent::Fingerprint { user_agent, accept_language, mode } => {
            store.log_fingerprint(now, user_agent, accept_language, mode);
        },
        LogEvent::Request { domain, path, user_agent, client_ip } => {
            store.log_request(now, domain, path, user_agent, client_ip);
        },
        LogEvent::TrackerHit { domain, category } => {
            let cat: Option<&str> = match &category {
                Some(c) => Some(c.as_str()),
                None => None,
            };
            let _ = store.increment_tracker(domain.as_str(), cat);
        },
    }
}

} // verus!
