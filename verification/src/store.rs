//! The tracking store: tracked domains with monotonic hit counters and
//! one-way blocked flags, the whitelist, and the three append-only,
//! timestamped event logs with retention cleanup.
//!
//! Domains are unique keys in the tracking table and in the whitelist;
//! a tracking row exists only after its first hit, so its counter is
//! always at least one.

use vstd::prelude::*;

verus! {

/// A tracked domain with its hit counter and blocked flag.
pub struct TrackingDomain {
    /// Unique key.
    pub domain: String,
    /// Optional classification, recorded when the row is created.
    pub category: Option<String>,
    /// How many times the domain was hit; never decreases.
    pub hit_count: u64,
    /// Whether the domain is blocked; never reset by this subsystem.
    pub blocked: bool,
}

/// A whitelisted domain; presence overrides blocking for that exact domain.
pub struct WhitelistEntry {
    /// Unique key.
    pub domain: String,
    /// Optional reason for whitelisting.
    pub reason: Option<String>,
}

/// A processed (and possibly blocked) cookie header.
pub struct CookieRecord {
    pub domain: String,
    pub cookie: String,
    pub blocked: bool,
}

/// A fingerprint rotation that was applied to a request.
pub struct FingerprintRecord {
    pub user_agent: String,
    pub accept_language: String,
    pub mode: String,
}

/// A proxied request.
pub struct RequestRecord {
    pub domain: String,
    pub path: String,
    pub user_agent: String,
    pub client_ip: String,
}

/// Copies an optional string; the copy equals the original.
fn clone_opt_string(o: &Option<String>) -> (r: Option<String>)
    ensures
        r == *o,
{
    match o {
        Some(s) => Some(s.clone()),
        None => None,
    }
}

impl Clone for TrackingDomain {
    fn clone(&self) -> (r: Self)
        ensures
            r == *self,
    {
        TrackingDomain {
            domain: self.domain.clone(),
            category: clone_opt_string(&self.category),
            hit_count: self.hit_count,
            blocked: self.blocked,
        }
    }
}

/// Tracking and whitelist state plus the three event logs. Each event
/// is stored with the seconds-since-epoch timestamp it was given on
/// insertion.
pub struct TrackingStore {
    /// Tracked domains; unique by domain.
    pub tracking: Vec<TrackingDomain>,
    /// Whitelisted domains; unique by domain.
    pub whitelist: Vec<WhitelistEntry>,
    /// Cookie events, each with its timestamp.
    pub cookie_log: Vec<(u64, CookieRecord)>,
    /// Fingerprint rotation events, each with its timestamp.
    pub fingerprint_log: Vec<(u64, FingerprintRecord)>,
    /// Request events, each with its timestamp.
    pub request_log: Vec<(u64, RequestRecord)>,
}

impl TrackingStore {
    /// Domains are unique keys, and a tracking row's counter is at least one.
    pub open spec fn wf(self) -> bool {
        &&& (forall|i: int, j: int|
            0 <= i < j < self.tracking@.len() ==> self.tracking@[i].domain@ != self.tracking@[j].domain@)
        &&& (forall|i: int| 0 <= i < self.tracking@.len() ==> #[trigger] self.tracking@[i].hit_count >= 1)
        &&& (forall|i: int, j: int|
            0 <= i < j < self.whitelist@.len() ==> self.whitelist@[i].domain@ != self.whitelist@[j].domain@)
    }

    /// The domain has a tracking row.
    pub open spec fn has_tracked(self, d: Seq<char>) -> bool {
        exists|i: int| 0 <= i < self.tracking@.len() && #[trigger] self.tracking@[i].domain@ == d
    }

    /// Index of the domain's tracking row.
    pub open spec fn tracked_ix(self, d: Seq<char>) -> int {
        choose|i: int| 0 <= i < self.tracking@.len() && #[trigger] self.tracking@[i].domain@ == d
    }

    /// The domain's hit counter; zero when it has no row.
    pub open spec fn hit_count_of(self, d: Seq<char>) -> u64 {
        if self.has_tracked(d) {
            self.tracking@[self.tracked_ix(d)].hit_count
        } else {
            0
        }
    }

    /// Whether the domain is blocked; an untracked domain is not.
    pub open spec fn blocked_of(self, d: Seq<char>) -> bool {
        self.has_tracked(d) && self.tracking@[self.tracked_ix(d)].blocked
    }

    /// The category recorded for the domain, when it has a row.
    pub open spec fn category_of(self, d: Seq<char>) -> Option<Option<Seq<char>>> {
        if self.has_tracked(d) {
            Some(self.tracking@[self.tracked_ix(d)].category.deep_view())
        } else {
            None
        }
    }

    /// The domain is whitelisted.
    pub open spec fn whitelisted(self, d: Seq<char>) -> bool {
        exists|i: int| 0 <= i < self.whitelist@.len() && #[trigger] self.whitelist@[i].domain@ == d
    }

    /// Index of the domain's whitelist row.
    pub open spec fn whitelist_ix(self, d: Seq<char>) -> int {
        choose|i: int| 0 <= i < self.whitelist@.len() && #[trigger] self.whitelist@[i].domain@ == d
    }

    /// The reason stored for a whitelisted domain; None when not whitelisted.
    pub open spec fn whitelist_reason_of(self, d: Seq<char>) -> Option<Option<Seq<char>>> {
        if self.whitelisted(d) {
            Some(self.whitelist@[self.whitelist_ix(d)].reason.deep_view())
        } else {
            None
        }
    }

    /// An empty store.
    pub fn new() -> (r: Self)
        ensures
            r.wf(),
            r.tracking@.len() == 0,
            r.whitelist@.len() == 0,
            r.cookie_log@.len() == 0,
            r.fingerprint_log@.len() == 0,
            r.request_log@.len() == 0,
    {
        TrackingStore {
            tracking: Vec::new(),
            whitelist: Vec::new(),
            cookie_log: Vec::new(),
            fingerprint_log: Vec::new(),
            request_log: Vec::new(),
        }
    }

    /// Finds the tracking row of a domain.
    fn find_tracked(&self, domain: &str) -> (r: Option<usize>)
        ensures
            match r {
                Some(i) => i < self.tracking@.len() && self.tracking@[i as int].domain@ == domain@
                    && self.has_tracked(domain@),
                None => !self.has_tracked(domain@),
            },
    {
        let d: String = domain.to_owned();
        let mut i: usize = 0;
        while i < self.tracking.len()
            invariant
                i <= self.tracking@.len(),
                d@ == domain@,
                forall|j: int| 0 <= j < i ==> self.tracking@[j].domain@ != domain@,
            decreases self.tracking@.len() - i,
        {
            if self.tracking[i].domain == d {
                return Some(i);
            }
            i += 1;
        }
        None
    }

    /// Finds the whitelist row of a domain.
    fn find_whitelist(&self, domain: &str) -> (r: Option<usize>)
        ensures
            match r {
                Some(i) => i < self.whitelist@.len() && self.whitelist@[i as int].domain@ == domain@
                    && self.whitelisted(domain@),
                None => !self.whitelisted(domain@),
            },
    {
        let d: String = domain.to_owned();
        let mut i: usize = 0;
        while i < self.whitelist.len()
            invariant
                i <= self.whitelist@.len(),
                d@ == domain@,
                forall|j: int| 0 <= j < i ==> self.whitelist@[j].domain@ != domain@,
            decreases self.whitelist@.len() - i,
        {
            if self.whitelist[i].domain == d {
                return Some(i);
            }
            i += 1;
        }
        None
    }

    /// The current hit counter of a domain; zero when it has no row.
    pub fn hit_count(&self, domain: &str) -> (r: u64)
        requires
            self.wf(),
        ensures
            r == self.hit_count_of(domain@),
    {
        let found = self.find_tracked(domain);
        match found {
            Some(i) => {
                proof {
                    lemma_unique_witness_tracking(*self, domain@, i as int);
                }
                self.tracking[i].hit_count
            },
            None => 0,
        }
    }

    /// Whether a domain is whitelisted.
    pub fn is_whitelisted(&self, domain: &str) -> (r: bool)
        ensures
            r == self.whitelisted(domain@),
    {
        self.find_whitelist(domain).is_some()
    }

    /// Adds a domain to the whitelist, replacing the stored reason if the
    /// domain is already present.
    pub fn add_whitelist(&mut self, domain: &str, reason: Option<&str>)
        requires
            old(self).wf(),
        ensures
            final(self).wf(),
            final(self).whitelisted(domain@),
            final(self).whitelist_reason_of(domain@) == Some(reason.deep_view()),
            forall|d: Seq<char>| d != domain@ ==> final(self).whitelisted(d) == old(self).whitelisted(d),
            forall|d: Seq<char>| d != domain@
                ==> final(self).whitelist_reason_of(d) == old(self).whitelist_reason_of(d),
            final(self).tracking == old(self).tracking,
            final(self).cookie_log == old(self).cookie_log,
            final(self).fingerprint_log == old(self).fingerprint_log,
            final(self).request_log == old(self).request_log,
    {
        let entry = WhitelistEntry {
            domain: domain.to_owned(),
            reason: match reason {
                Some(s) => Some(s.to_owned()),
                None => None,
            },
        };
        let found = self.find_whitelist(domain);
        match found {
            Some(i) => {
                self.whitelist[i] = entry;
                proof {
                    assert forall|p: int, q: int| 0 <= p < q < self.whitelist@.len() implies
                        self.whitelist@[p].domain@ != self.whitelist@[q].domain@ by {
                        assert(old(self).whitelist@[p].domain@ != old(self).whitelist@[q].domain@);
                    }
                    lemma_unique_witness_whitelist(*self, domain@, i as int);
                    assert forall|d: Seq<char>| d != domain@ implies
                        self.whitelisted(d) == old(self).whitelisted(d)
                        && self.whitelist_reason_of(d) == old(self).whitelist_reason_of(d) by {
                        witness_transfer_whitelist(*old(self), *self, d, i as int);
                    }
                }
            },
            None => {
                let ghost n = self.whitelist@.len() as int;
                self.whitelist.push(entry);
                proof {
                    assert forall|p: int, q: int| 0 <= p < q < self.whitelist@.len() implies
                        self.whitelist@[p].domain@ != self.whitelist@[q].domain@ by {
                        if q < n {
                            assert(old(self).whitelist@[p].domain@ != old(self).whitelist@[q].domain@);
                        } else {
                            assert(old(self).whitelist@[p].domain@ != domain@);
                        }
                    }
                    assert(self.whitelist@[n].domain@ == domain@);
                    lemma_unique_witness_whitelist(*self, domain@, n);
                    assert forall|d: Seq<char>| d != domain@ implies
                        self.whitelisted(d) == old(self).whitelisted(d)
                        && self.whitelist_reason_of(d) == old(self).whitelist_reason_of(d) by {
                        witness_transfer_whitelist(*old(self), *self, d, n);
                    }
                }
            },
        }
    }
}

impl TrackingStore {
    /// Creates the tracking row for a domain if it has none (with the
    /// given category and a zero counter), then atomically increments the
    /// hit counter and reads the blocked flag. Returns the new counter
    /// and the flag.
    pub fn increment_tracker(&mut self, domain: &str, category: Option<&str>) -> (r: (u64, bool))
        requires
            old(self).wf(),
            old(self).hit_count_of(domain@) < u64::MAX,
        ensures
            final(self).wf(),
            final(self).has_tracked(domain@),
            final(self).hit_count_of(domain@) == old(self).hit_count_of(domain@) + 1,
            final(self).blocked_of(domain@) == old(self).blocked_of(domain@),
            r.0 == final(self).hit_count_of(domain@),
            r.1 == final(self).blocked_of(domain@),
            final(self).category_of(domain@) == (if old(self).has_tracked(domain@) {
                old(self).category_of(domain@)
            } else {
                Some(category.deep_view())
            }),
            forall|d: Seq<char>| d != domain@ ==> final(self).has_tracked(d) == old(self).has_tracked(d),
            forall|d: Seq<char>| d != domain@
                ==> final(self).hit_count_of(d) == old(self).hit_count_of(d),
            forall|d: Seq<char>| d != domain@ ==> final(self).blocked_of(d) == old(self).blocked_of(d),
            forall|d: Seq<char>| d != domain@ ==> final(self).category_of(d) == old(self).category_of(d),
            final(self).whitelist == old(self).whitelist,
            final(self).cookie_log == old(self).cookie_log,
            final(self).fingerprint_log == old(self).fingerprint_log,
            final(self).request_log == old(self).request_log,
    {
        let found = self.find_tracked(domain);
        match found {
            Some(i) => {
                proof {
                    lemma_unique_witness_tracking(*old(self), domain@, i as int);
                }
                let mut row = self.tracking[i].clone();
                row.hit_count = row.hit_count + 1;
                let count = row.hit_count;
                let was_blocked = row.blocked;
                self.tracking[i] = row;
                proof {
                    assert forall|p: int, q: int| 0 <= p < q < self.tracking@.len() implies
                        self.tracking@[p].domain@ != self.tracking@[q].domain@ by {
                        assert(old(self).tracking@[p].domain@ != old(self).tracking@[q].domain@);
                    }
                    lemma_unique_witness_tracking(*self, domain@, i as int);
                    assert forall|d: Seq<char>| d != domain@ implies
                        self.has_tracked(d) == old(self).has_tracked(d)
                        && self.hit_count_of(d) == old(self).hit_count_of(d)
                        && self.blocked_of(d) == old(self).blocked_of(d)
                        && self.category_of(d) == old(self).category_of(d) by {
                        witness_transfer_tracking(*old(self), *self, d, i as int);
                    }
                }
                (count, was_blocked)
            },
            None => {
                let row = TrackingDomain {
                    domain: domain.to_owned(),
                    category: match category {
                        Some(c) => Some(c.to_owned()),
                        None => None,
                    },
                    hit_count: 1,
                    blocked: false,
                };
                let ghost n = self.tracking@.len() as int;
                self.tracking.push(row);
                proof {
                    assert forall|p: int, q: int| 0 <= p < q < self.tracking@.len() implies
                        self.tracking@[p].domain@ != self.tracking@[q].domain@ by {
                        if q < n {
                            assert(old(self).tracking@[p].domain@ != old(self).tracking@[q].domain@);
                        } else {
                            assert(old(self).tracking@[p].domain@ != domain@);
                        }
                    }
                    assert(self.tracking@[n].domain@ == domain@);
                    lemma_unique_witness_tracking(*self, domain@, n);
                    assert forall|d: Seq<char>| d != domain@ implies
                        self.has_tracked(d) == old(self).has_tracked(d)
                        && self.hit_count_of(d) == old(self).hit_count_of(d)
                        && self.blocked_of(d) == old(self).blocked_of(d)
                        && self.category_of(d) == old(self).category_of(d) by {
                        witness_transfer_tracking(*old(self), *self, d, n);
                    }
                }
                (1, false)
            },
        }
    }

    /// Sets the blocked flag of a tracked domain; a domain with no
    /// tracking row is left untouched.
    pub fn set_blocked(&mut self, domain: &str, blocked: bool)
        requires
            old(self).wf(),
        ensures
            final(self).wf(),
            old(self).has_tracked(domain@) ==> final(self).blocked_of(domain@) == blocked,
            !old(self).has_tracked(domain@) ==> final(self).blocked_of(domain@) == old(self).blocked_of(domain@),
            final(self).has_tracked(domain@) == old(self).has_tracked(domain@),
            final(self).hit_count_of(domain@) == old(self).hit_count_of(domain@),
            final(self).category_of(domain@) == old(self).category_of(domain@),
            forall|d: Seq<char>| d != domain@ ==> final(self).has_tracked(d) == old(self).has_tracked(d),
            forall|d: Seq<char>| d != domain@
                ==> final(self).hit_count_of(d) == old(self).hit_count_of(d),
            forall|d: Seq<char>| d != domain@ ==> final(self).blocked_of(d) == old(self).blocked_of(d),
            forall|d: Seq<char>| d != domain@ ==> final(self).category_of(d) == old(self).category_of(d),
            final(self).whitelist == old(self).whitelist,
            final(self).cookie_log == old(self).cookie_log,
            final(self).fingerprint_log == old(self).fingerprint_log,
            final(self).request_log == old(self).request_log,
    {
        let found = self.find_tracked(domain);
        match found {
            Some(i) => {
                proof {
                    lemma_unique_witness_tracking(*old(self), domain@, i as int);
                }
                let mut row = self.tracking[i].clone();
                row.blocked = blocked;
                self.tracking[i] = row;
                proof {
                    assert forall|p: int, q: int| 0 <= p < q < self.tracking@.len() implies
                        self.tracking@[p].domain@ != self.tracking@[q].domain@ by {
                        assert(old(self).tracking@[p].domain@ != old(self).tracking@[q].domain@);
                    }
                    lemma_unique_witness_tracking(*self, domain@, i as int);
                    assert forall|d: Seq<char>| d != domain@ implies
                        self.has_tracked(d) == old(self).has_tracked(d)
                        && self.hit_count_of(d) == old(self).hit_count_of(d)
                        && self.blocked_of(d) == old(self).blocked_of(d)
                        && self.category_of(d) == old(self).category_of(d) by {
                        witness_transfer_tracking(*old(self), *self, d, i as int);
                    }
                }
            },
            None => {},
        }
    }

    /// Blocks a domain by hand; a one-way administrative transition.
    pub fn manual_block(&mut self, domain: &str)
        requires
            old(self).wf(),
        ensures
            final(self).wf(),
            old(self).has_tracked(domain@) ==> final(self).blocked_of(domain@),
            !old(self).has_tracked(domain@) ==> final(self).blocked_of(domain@) == old(self).blocked_of(domain@),
            final(self).has_tracked(domain@) == old(self).has_tracked(domain@),
            final(self).hit_count_of(domain@) == old(self).hit_count_of(domain@),
            final(self).category_of(domain@) == old(self).category_of(domain@),
            forall|d: Seq<char>| d != domain@ ==> final(self).category_of(d) == old(self).category_of(d),
            forall|d: Seq<char>| d != domain@ ==> final(self).has_tracked(d) == old(self).has_tracked(d),
            forall|d: Seq<char>| d != domain@
                ==> final(self).hit_count_of(d) == old(self).hit_count_of(d),
            forall|d: Seq<char>| d != domain@ ==> final(self).blocked_of(d) == old(self).blocked_of(d),
            final(self).whitelist == old(self).whitelist,
            final(self).cookie_log == old(self).cookie_log,
            final(self).fingerprint_log == old(self).fingerprint_log,
            final(self).request_log == old(self).request_log,
    {
        self.set_blocked(domain, true)
    }

    /// Appends a cookie event with the given timestamp.
    pub fn log_cookie(&mut self, now: u64, domain: String, cookie: String, blocked: bool)
        requires
            old(self).wf(),
        ensures
            final(self).wf(),
            final(self).cookie_log@ == old(self).cookie_log@.push(
                (now, (CookieRecord { domain: domain, cookie: cookie, blocked: blocked })),
            ),
            final(self).tracking == old(self).tracking,
            final(self).whitelist == old(self).whitelist,
            final(self).fingerprint_log == old(self).fingerprint_log,
            final(self).request_log == old(self).request_log,
    {
        self.cookie_log.push((now, CookieRecord { domain, cookie, blocked }));
    }

    /// Appends a fingerprint rotation event with the given timestamp.
    pub fn log_fingerprint(&mut self, now: u64, ua: String, lang: String, mode: String)
        requires
            old(self).wf(),
        ensures
            final(self).wf(),
            final(self).fingerprint_log@ == old(self).fingerprint_log@.push(
                (now, (FingerprintRecord { user_agent: ua, accept_language: lang, mode: mode })),
            ),
            final(self).tracking == old(self).tracking,
            final(self).whitelist == old(self).whitelist,
            final(self).cookie_log == old(self).cookie_log,
            final(self).request_log == old(self).request_log,
    {
        self.fingerprint_log.push((now, FingerprintRecord { user_agent: ua, accept_language: lang, mode }));
    }

    /// Appends a request event with the given timestamp.
    pub fn log_request(&mut self, now: u64, domain: String, path: String, ua: String, client_ip: String)
        requires
            old(self).wf(),
        ensures
            final(self).wf(),
            final(self).request_log@ == old(self).request_log@.push(
                (now, (RequestRecord { domain: domain, path: path, user_agent: ua, client_ip: client_ip })),
            ),
            final(self).tracking == old(self).tracking,
            final(self).whitelist == old(self).whitelist,
            final(self).cookie_log == old(self).cookie_log,
            final(self).fingerprint_log == old(self).fingerprint_log,
    {
        self.request_log.push((now, RequestRecord { domain, path, user_agent: ua, client_ip }));
    }

    /// Deletes event-log records older than the retention window ending
    /// at `now` from the three event logs; tracking and whitelist rows
    /// are never deleted. Returns the total number of deleted records.
    pub fn cleanup_old_data(&mut self, now: u64, retention_days: u64) -> (deleted: usize)
        requires
            old(self).wf(),
            old(self).cookie_log@.len() + old(self).fingerprint_log@.len()
                + old(self).request_log@.len() <= usize::MAX,
        ensures
            final(self).wf(),
            final(self).cookie_log@ == keep_recent(old(self).cookie_log@, spec_cutoff(now, retention_days)),
            final(self).fingerprint_log@ == keep_recent(
                old(self).fingerprint_log@,
                spec_cutoff(now, retention_days),
            ),
            final(self).request_log@ == keep_recent(
                old(self).request_log@,
                spec_cutoff(now, retention_days),
            ),
            final(self).tracking == old(self).tracking,
            final(self).whitelist == old(self).whitelist,
            deleted == old(self).cookie_log@.len() - final(self).cookie_log@.len()
                + old(self).fingerprint_log@.len() - final(self).fingerprint_log@.len()
                + old(self).request_log@.len() - final(self).request_log@.len(),
    {
        let cutoff = cutoff_time(now, retention_days);
        let a = retain_recent(&mut self.cookie_log, cutoff);
        let b = retain_recent(&mut self.fingerprint_log, cutoff);
        let c = retain_recent(&mut self.request_log, cutoff);
        a + b + c
    }
}

/// Row with domain `d1` and counter `c1` ranks strictly before the row
/// with `d2` and `c2`: more hits, or equally many hits and a
/// lexicographically earlier domain.
pub open spec fn ranks_before(d1: Seq<char>, c1: u64, d2: Seq<char>, c2: u64) -> bool {
    c1 > c2 || (c1 == c2 && crate::text::lex_lt(d1, d2))
}

/// Some returned pair carries this domain.
pub open spec fn pairs_have_domain(r: Seq<(String, u64)>, d: Seq<char>) -> bool {
    exists|p: int| 0 <= p < r.len() && r[p].0@ == d
}

/// The pair restates a tracking row: its domain and its hit counter.
pub open spec fn pair_is_row(s: TrackingStore, e: (String, u64)) -> bool {
    exists|t: int| 0 <= t < s.tracking@.len()
        && (#[trigger] s.tracking@[t]).domain@ == e.0@
        && s.tracking@[t].hit_count == e.1
}

/// Whether one (domain, counter) pair ranks before another.
fn pair_ranks_before(a: &(String, u64), b: &(String, u64)) -> (r: bool)
    ensures
        r == ranks_before(a.0@, a.1, b.0@, b.1),
{
    if a.1 > b.1 {
        true
    } else if a.1 == b.1 {
        crate::text::str_lt(a.0.as_str(), b.0.as_str())
    } else {
        false
    }
}

/// No row ranks before itself.
proof fn lemma_ranks_irrefl(d: Seq<char>, c: u64)
    ensures
        !ranks_before(d, c, d, c),
{
    crate::text::lemma_lex_lt_trichotomy(d, d);
}

/// Rows with distinct domains are ordered one way or the other.
proof fn lemma_ranks_total(d1: Seq<char>, c1: u64, d2: Seq<char>, c2: u64)
    requires
        d1 != d2,
    ensures
        ranks_before(d1, c1, d2, c2) || ranks_before(d2, c2, d1, c1),
{
    crate::text::lemma_lex_lt_trichotomy(d1, d2);
}

/// The ranking order is transitive.
proof fn lemma_ranks_trans(d1: Seq<char>, c1: u64, d2: Seq<char>, c2: u64, d3: Seq<char>, c3: u64)
    requires
        ranks_before(d1, c1, d2, c2),
        ranks_before(d2, c2, d3, c3),
    ensures
        ranks_before(d1, c1, d3, c3),
{
    if c1 == c2 && c2 == c3 {
        crate::text::lemma_lex_lt_trans(d1, d2, d3);
    }
}

/// Index of a pair that no other pair ranks before.
fn best_index(v: &Vec<(String, u64)>) -> (m: usize)
    requires
        v@.len() > 0,
    ensures
        m < v@.len(),
        forall|j: int| 0 <= j < v@.len()
            ==> !ranks_before(#[trigger] v@[j].0@, v@[j].1, v@[m as int].0@, v@[m as int].1),
{
    let mut m: usize = 0;
    let mut i: usize = 1;
    proof {
        lemma_ranks_irrefl(v@[0].0@, v@[0].1);
    }
    while i < v.len()
        invariant
            1 <= i <= v@.len(),
            m < i,
            forall|j: int| 0 <= j < i
                ==> !ranks_before(#[trigger] v@[j].0@, v@[j].1, v@[m as int].0@, v@[m as int].1),
        decreases v@.len() - i,
    {
        if pair_ranks_before(&v[i], &v[m]) {
            let ghost oldm = m as int;
            m = i;
            proof {
                lemma_ranks_irrefl(v@[i as int].0@, v@[i as int].1);
                assert forall|j: int| 0 <= j < i implies
                    !ranks_before(v@[j].0@, v@[j].1, v@[m as int].0@, v@[m as int].1) by {
                    if ranks_before(v@[j].0@, v@[j].1, v@[m as int].0@, v@[m as int].1) {
                        lemma_ranks_trans(
                            v@[j].0@, v@[j].1,
                            v@[m as int].0@, v@[m as int].1,
                            v@[oldm].0@, v@[oldm].1,
                        );
                    }
                }
            }
        }
        i += 1;
    }
    m
}

impl TrackingStore {
    /// The tracked domains with the highest hit counters, as
    /// (domain, counter) pairs sorted by counter descending and, among
    /// equal counters, by domain; at most `limit` of them, and every
    /// tracked domain left out ranks after every pair returned.
    pub fn get_top_domains(&self, limit: usize) -> (r: Vec<(String, u64)>)
        requires
            self.wf(),
        ensures
            r@.len() == (if (limit as int) <= self.tracking@.len() {
                limit as int
            } else {
                self.tracking@.len() as int
            }),
            forall|p: int, q: int| 0 <= p < q < r@.len()
                ==> ranks_before(#[trigger] r@[p].0@, r@[p].1, #[trigger] r@[q].0@, r@[q].1),
            forall|p: int, q: int| 0 <= p < q < r@.len() ==> r@[p].0@ != r@[q].0@,
            forall|p: int| 0 <= p < r@.len() ==> pair_is_row(*self, #[trigger] r@[p]),
            forall|t: int, p: int|
                0 <= t < self.tracking@.len() && 0 <= p < r@.len()
                    && !pairs_have_domain(r@, #[trigger] self.tracking@[t].domain@)
                    ==> ranks_before(
                        #[trigger] r@[p].0@, r@[p].1,
                        self.tracking@[t].domain@, self.tracking@[t].hit_count,
                    ),
    {
        proof {
            broadcast use vstd::seq_lib::group_to_multiset_ensures;
        }
        let mut remaining: Vec<(String, u64)> = Vec::new();
        let mut i: usize = 0;
        while i < self.tracking.len()
            invariant
                i <= self.tracking@.len(),
                remaining@.len() == i,
                forall|j: int| 0 <= j < i
                    ==> (#[trigger] remaining@[j].0)@ == self.tracking@[j].domain@
                        && remaining@[j].1 == self.tracking@[j].hit_count,
            decreases self.tracking@.len() - i,
        {
            remaining.push((self.tracking[i].domain.clone(), self.tracking[i].hit_count));
            i += 1;
        }
        let ghost orig = remaining@;
        proof {
            assert(forall|p: int, q: int| 0 <= p < q < orig.len()
                ==> (#[trigger] orig[p].0)@ != (#[trigger] orig[q].0)@);
        }
        let mut result: Vec<(String, u64)> = Vec::new();
        while result.len() < limit && remaining.len() > 0
            invariant
                self.wf(),
                orig.len() == self.tracking@.len(),
                forall|j: int| 0 <= j < orig.len()
                    ==> (#[trigger] orig[j].0)@ == self.tracking@[j].domain@
                        && orig[j].1 == self.tracking@[j].hit_count,
                result@.len() + remaining@.len() == orig.len(),
                result@.len() <= limit,
                result@.to_multiset().add(remaining@.to_multiset()) == orig.to_multiset(),
                forall|p: int, q: int| 0 <= p < q < result@.len()
                    ==> (#[trigger] result@[p].0)@ != (#[trigger] result@[q].0)@,
                forall|p: int, q: int| 0 <= p < q < remaining@.len()
                    ==> (#[trigger] remaining@[p].0)@ != (#[trigger] remaining@[q].0)@,
                forall|p: int, j: int|
                    0 <= p < result@.len() && 0 <= j < remaining@.len()
                        ==> (#[trigger] result@[p].0)@ != (#[trigger] remaining@[j].0)@,
                forall|p: int, q: int| 0 <= p < q < result@.len()
                    ==> ranks_before(
                        #[trigger] result@[p].0@, result@[p].1,
                        #[trigger] result@[q].0@, result@[q].1,
                    ),
                forall|p: int, j: int|
                    0 <= p < result@.len() && 0 <= j < remaining@.len()
                        ==> ranks_before(
                            #[trigger] result@[p].0@, result@[p].1,
                            #[trigger] remaining@[j].0@, remaining@[j].1,
                        ),
            decreases remaining@.len(),
        {
            let ghost pre_remaining = remaining@;
            let m = best_index(&remaining);
            let x = remaining.remove(m);
            proof {
                broadcast use vstd::seq_lib::group_to_multiset_ensures;
                assert(remaining@ == pre_remaining.remove(m as int));
                assert(pre_remaining.to_multiset().remove(x)
                    =~= remaining@.to_multiset());
                assert forall|j: int| 0 <= j < remaining@.len() implies
                    ranks_before(x.0@, x.1, #[trigger] remaining@[j].0@, remaining@[j].1) by {
                    let jj: int = if j < m as int { j } else { j + 1 };
                    assert(remaining@[j] == pre_remaining[jj]);
                    assert(pre_remaining[jj].0@ != x.0@);
                    lemma_ranks_total(x.0@, x.1, pre_remaining[jj].0@, pre_remaining[jj].1);
                }
            }
            let ghost pre_result = result@;
            result.push(x);
            proof {
                assert(result@.to_multiset() =~= pre_result.to_multiset().insert(x));
                assert(result@.to_multiset().add(remaining@.to_multiset()) =~= orig.to_multiset());
                assert(result@ == pre_result.push(x));
            }
        }
        proof {
            broadcast use vstd::seq_lib::group_to_multiset_ensures;
            assert forall|p: int| 0 <= p < result@.len() implies
                pair_is_row(*self, #[trigger] result@[p]) by {
                let e = result@[p];
                assert(result@.contains(e));
                assert(result@.to_multiset().count(e) > 0);
                assert(orig.to_multiset().count(e) > 0);
                assert(orig.contains(e));
                let t = choose|t: int| 0 <= t < orig.len() && orig[t] == e;
                assert(self.tracking@[t].domain@ == e.0@);
                assert(self.tracking@[t].hit_count == e.1);
            }
            assert forall|t: int, p: int|
                0 <= t < self.tracking@.len() && 0 <= p < result@.len()
                    && !pairs_have_domain(result@, self.tracking@[t].domain@) implies
                ranks_before(
                    result@[p].0@, result@[p].1,
                    self.tracking@[t].domain@, self.tracking@[t].hit_count,
                ) by {
                let e = orig[t];
                assert(orig.contains(e));
                assert(orig.to_multiset().count(e) > 0);
                if result@.to_multiset().count(e) > 0 {
                    assert(result@.contains(e));
                    let q = choose|q: int| 0 <= q < result@.len() && result@[q] == e;
                    assert(result@[q].0@ == self.tracking@[t].domain@);
                    assert(pairs_have_domain(result@, self.tracking@[t].domain@));
                } else {
                    assert(remaining@.to_multiset().count(e) > 0);
                    assert(remaining@.contains(e));
                    let j = choose|j: int| 0 <= j < remaining@.len() && remaining@[j] == e;
                    assert(ranks_before(
                        result@[p].0@, result@[p].1,
                        remaining@[j].0@, remaining@[j].1,
                    ));
                }
            }
        }
        result
    }
}

/// The oldest timestamp kept by a cleanup at `now` with the given
/// retention in days; zero when the window covers all of time.
pub open spec fn spec_cutoff(now: u64, retention_days: u64) -> u64 {
    if retention_days * 86400 > now {
        0
    } else {
        (now - retention_days * 86400) as u64
    }
}

/// Computes the cutoff timestamp of a retention window.
fn cutoff_time(now: u64, retention_days: u64) -> (r: u64)
    ensures
        r == spec_cutoff(now, retention_days),
{
    match retention_days.checked_mul(86400) {
        Some(secs) => {
            if secs > now {
                0
            } else {
                now - secs
            }
        },
        None => 0,
    }
}

/// A timestamped log with every record older than the cutoff removed,
/// order kept.
pub open spec fn keep_recent<T>(s: Seq<(u64, T)>, cutoff: u64) -> Seq<(u64, T)>
    decreases s.len(),
{
    if s.len() == 0 {
        Seq::empty()
    } else {
        let rest = keep_recent(s.drop_last(), cutoff);
        if s.last().0 >= cutoff {
            rest.push(s.last())
        } else {
            rest
        }
    }
}

/// Appending a record and then cleaning keeps it iff it is recent.
proof fn lemma_keep_recent_push<T>(s: Seq<(u64, T)>, e: (u64, T), cutoff: u64)
    ensures
        keep_recent(s.push(e), cutoff) == (if e.0 >= cutoff {
            keep_recent(s, cutoff).push(e)
        } else {
            keep_recent(s, cutoff)
        }),
{
    assert(s.push(e).drop_last() =~= s);
    assert(s.push(e).last() == e);
}

/// Cleaning removes at most everything and never grows the log.
proof fn lemma_keep_recent_len<T>(s: Seq<(u64, T)>, cutoff: u64)
    ensures
        keep_recent(s, cutoff).len() <= s.len(),
    decreases s.len(),
{
    if s.len() > 0 {
        lemma_keep_recent_len(s.drop_last(), cutoff);
    }
}

/// Removes every record older than the cutoff from a timestamped log,
/// keeping the order of the rest; returns how many were removed.
fn retain_recent<T>(v: &mut Vec<(u64, T)>, cutoff: u64) -> (removed: usize)
    ensures
        final(v)@ == keep_recent(old(v)@, cutoff),
        removed == old(v)@.len() - final(v)@.len(),
{
    let ghost orig = v@;
    let total = v.len();
    let mut i: usize = 0;
    let ghost k: int = 0;
    let mut removed: usize = 0;
    proof {
        assert(orig.subrange(0, 0) =~= Seq::<(u64, T)>::empty());
        assert(v@ =~= keep_recent(orig.subrange(0, 0), cutoff) + orig.subrange(0, orig.len() as int));
    }
    while i < v.len()
        invariant
            0 <= k <= orig.len(),
            orig.len() == total,
            v@ == keep_recent(orig.subrange(0, k), cutoff) + orig.subrange(k, orig.len() as int),
            i == keep_recent(orig.subrange(0, k), cutoff).len(),
            removed == k - i,
        decreases orig.len() - k,
    {
        let ghost prefix = orig.subrange(0, k);
        proof {
            lemma_keep_recent_len(prefix, cutoff);
            lemma_keep_recent_push(prefix, orig[k], cutoff);
            assert(orig.subrange(0, k + 1) =~= prefix.push(orig[k]));
            assert(v@[i as int] == orig[k]);
        }
        if v[i].0 >= cutoff {
            proof {
                assert(keep_recent(orig.subrange(0, k + 1), cutoff)
                    == keep_recent(prefix, cutoff).push(orig[k]));
                assert(v@ =~= keep_recent(orig.subrange(0, k + 1), cutoff)
                    + orig.subrange(k + 1, orig.len() as int));
            }
            i += 1;
        } else {
            let _dropped = v.remove(i);
            proof {
                assert(keep_recent(orig.subrange(0, k + 1), cutoff) == keep_recent(prefix, cutoff));
                assert(v@ =~= keep_recent(orig.subrange(0, k + 1), cutoff)
                    + orig.subrange(k + 1, orig.len() as int));
            }
            removed += 1;
        }
        proof {
            k = k + 1;
        }
    }
    proof {
        assert(orig.subrange(0, orig.len() as int) =~= orig);
        assert(v@ =~= keep_recent(orig, cutoff));
        lemma_keep_recent_len(orig, cutoff);
    }
    removed
}

/// With unique domains, the chosen tracking index is the only row whose
/// domain matches.
proof fn lemma_unique_witness_tracking(s: TrackingStore, d: Seq<char>, i: int)
    requires
        s.wf(),
        0 <= i < s.tracking@.len(),
        s.tracking@[i].domain@ == d,
    ensures
        s.has_tracked(d),
        s.tracked_ix(d) == i,
{
    assert(s.has_tracked(d));
    let j = s.tracked_ix(d);
    if i < j {
        assert(s.tracking@[i].domain@ != s.tracking@[j].domain@);
    } else if j < i {
        assert(s.tracking@[j].domain@ != s.tracking@[i].domain@);
    }
}

/// Rows other than the changed one keep their tracking facts when one
/// row is updated or a row is appended.
proof fn witness_transfer_tracking(pre: TrackingStore, post: TrackingStore, d: Seq<char>, i: int)
    requires
        pre.wf(),
        post.wf(),
        d != post.tracking@[i].domain@,
        0 <= i < post.tracking@.len(),
        pre.tracking@.len() == post.tracking@.len() || pre.tracking@.len() + 1 == post.tracking@.len(),
        pre.tracking@.len() < post.tracking@.len() ==> i == pre.tracking@.len(),
        i < pre.tracking@.len() ==> pre.tracking@[i].domain@ == post.tracking@[i].domain@,
        forall|j: int| 0 <= j < pre.tracking@.len() && j != i ==> post.tracking@[j] == pre.tracking@[j],
    ensures
        post.has_tracked(d) == pre.has_tracked(d),
        post.hit_count_of(d) == pre.hit_count_of(d),
        post.blocked_of(d) == pre.blocked_of(d),
        post.category_of(d) == pre.category_of(d),
{
    if pre.has_tracked(d) {
        let j = pre.tracked_ix(d);
        assert(0 <= j < pre.tracking@.len() && pre.tracking@[j].domain@ == d);
        assert(j != i);
        assert(post.tracking@[j].domain@ == d);
        lemma_unique_witness_tracking(post, d, j);
        lemma_unique_witness_tracking(pre, d, j);
    } else {
        if post.has_tracked(d) {
            let j = post.tracked_ix(d);
            assert(j != i);
            if j < pre.tracking@.len() {
                assert(pre.tracking@[j].domain@ == d);
            }
        }
    }
}

/// With unique domains, the chosen whitelist index is the only row whose
/// domain matches.
proof fn lemma_unique_witness_whitelist(s: TrackingStore, d: Seq<char>, i: int)
    requires
        s.wf(),
        0 <= i < s.whitelist@.len(),
        s.whitelist@[i].domain@ == d,
    ensures
        s.whitelisted(d),
        s.whitelist_ix(d) == i,
{
    assert(s.whitelisted(d));
    let j = s.whitelist_ix(d);
    if i < j {
        assert(s.whitelist@[i].domain@ != s.whitelist@[j].domain@);
    } else if j < i {
        assert(s.whitelist@[j].domain@ != s.whitelist@[i].domain@);
    }
}

/// Rows other than the changed one keep their whitelist facts when one
/// row is updated or a row is appended.
proof fn witness_transfer_whitelist(pre: TrackingStore, post: TrackingStore, d: Seq<char>, i: int)
    requires
        pre.wf(),
        post.wf(),
        d != post.whitelist@[i].domain@,
        0 <= i < post.whitelist@.len(),
        pre.whitelist@.len() == post.whitelist@.len() || pre.whitelist@.len() + 1 == post.whitelist@.len(),
        pre.whitelist@.len() < post.whitelist@.len() ==> i == pre.whitelist@.len(),
        i < pre.whitelist@.len() ==> pre.whitelist@[i].domain@ == post.whitelist@[i].domain@,
        forall|j: int| 0 <= j < pre.whitelist@.len() && j != i ==> post.whitelist@[j] == pre.whitelist@[j],
    ensures
        post.whitelisted(d) == pre.whitelisted(d),
        post.whitelist_reason_of(d) == pre.whitelist_reason_of(d),
{
    if pre.whitelisted(d) {
        let j = pre.whitelist_ix(d);
        assert(0 <= j < pre.whitelist@.len() && pre.whitelist@[j].domain@ == d);
        assert(j != i);
        assert(post.whitelist@[j].domain@ == d);
        lemma_unique_witness_whitelist(post, d, j);
        lemma_unique_witness_whitelist(pre, d, j);
    } else {
        if post.whitelisted(d) {
            let j = post.whitelist_ix(d);
            assert(j != i);
            assert(j < pre.whitelist@.len() || j == pre.whitelist@.len());
            if j < pre.whitelist@.len() {
                assert(pre.whitelist@[j].domain@ == d);
            }
        }
    }
}

} // verus!
