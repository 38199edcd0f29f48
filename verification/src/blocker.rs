//! Domain blocking: whitelist override, multi-pattern matching through
//! the regex engine, hit tracking, and the one-way auto-block
//! escalation once a domain's counter reaches the configured threshold.

use vstd::prelude::*;

use crate::config::Config;
use crate::config::ConfigError;
use crate::pipeline::EventQueue;
use crate::pipeline::EventView;
use crate::pipeline::LogEvent;
use crate::pipeline::offer;
use crate::store::TrackingStore;

verus! {

#[verifier::external_type_specification]
#[verifier::external_body]
pub struct ExRegexSet(regex::RegexSet);

#[verifier::external_type_specification]
#[verifier::external_body]
pub struct ExRegexError(regex::Error);

/// The pattern texts a compiled set was built from.
pub uninterp spec fn regex_set_patterns(s: regex::RegexSet) -> Seq<Seq<char>>;

/// Whether any of the patterns matches the text, as the regex engine
/// decides it; a function of the pattern texts and the text alone.
pub uninterp spec fn regex_set_match(patterns: Seq<Seq<char>>, text: Seq<char>) -> bool;

/// Whether the regex engine compiles these pattern texts (under its
/// default options); a function of the pattern texts alone.
pub uninterp spec fn patterns_compile(patterns: Seq<Seq<char>>) -> bool;

/// The views of a list of pattern strings, in order.
pub open spec fn pattern_views(v: Seq<String>) -> Seq<Seq<char>>
    decreases v.len(),
{
    if v.len() == 0 {
        Seq::empty()
    } else {
        pattern_views(v.drop_last()).push(v.last()@)
    }
}

/// Relies on regex::RegexSet::new: it succeeds exactly when the
/// pattern texts compile, and the returned set is then built from
/// exactly the given patterns, in order.
#[verifier::external_body]
fn regex_set_new(patterns: &Vec<String>) -> (r: Result<regex::RegexSet, regex::Error>)
    ensures
        (r is Ok) == patterns_compile(pattern_views(patterns@)),
        r matches Ok(s) ==> regex_set_patterns(s) == pattern_views(patterns@),
{
    regex::RegexSet::new(patterns)
}

/// Relies on regex::RegexSet::is_match: whether any pattern of the set
/// matches the text, a deterministic function of patterns and text.
#[verifier::external_body]
fn regex_set_is_match(s: &regex::RegexSet, text: &str) -> (r: bool)
    ensures
        r == regex_set_match(regex_set_patterns(*s), text@),
{
    s.is_match(text)
}

/// Classifies hosts and tracks hits of the blocking patterns.
pub struct Blocker {
    /// Compiled multi-pattern set.
    pub patterns: regex::RegexSet,
    /// Whether domains are blocked automatically once the threshold is
    /// reached.
    pub auto_block: bool,
    /// Number of hits at which a domain is blocked automatically.
    pub auto_block_threshold: usize,
}

/// Whether a call on this host, against this store, comes out blocked:
/// the host is not whitelisted, some pattern matches it, and it either
/// already is blocked or the auto-block escalation fires on this hit.
pub open spec fn spec_blocks(b: Blocker, s: TrackingStore, host: Seq<char>) -> bool {
    &&& !s.whitelisted(host)
    &&& regex_set_match(regex_set_patterns(b.patterns), host)
    &&& (s.blocked_of(host) || (b.auto_block && s.hit_count_of(host) + 1 >= b.auto_block_threshold))
}

/// Tracks one hit on a host that matched a blocking pattern: bumps its
/// counter (creating the row on the first hit), offers a tracker-hit
/// event to the pipeline, applies the auto-block escalation, and
/// reports whether the request is blocked.
pub fn track_matched_host(
    store: &mut TrackingStore,
    queue: &mut EventQueue,
    host: &str,
    auto_block: bool,
    threshold: usize,
) -> (blocked: bool)
    requires
        old(store).wf(),
        old(store).hit_count_of(host@) < u64::MAX,
    ensures
        final(store).wf(),
        final(store).has_tracked(host@),
        final(store).hit_count_of(host@) == old(store).hit_count_of(host@) + 1,
        blocked == (old(store).blocked_of(host@)
            || (auto_block && old(store).hit_count_of(host@) + 1 >= threshold)),
        final(store).blocked_of(host@) == blocked,
        forall|d: Seq<char>| d != host@ ==> final(store).has_tracked(d) == old(store).has_tracked(d),
        forall|d: Seq<char>| d != host@ ==> final(store).hit_count_of(d) == old(store).hit_count_of(d),
        forall|d: Seq<char>| d != host@ ==> final(store).blocked_of(d) == old(store).blocked_of(d),
        forall|d: Seq<char>| old(store).blocked_of(d) ==> final(store).blocked_of(d),
        forall|d: Seq<char>| old(store).whitelisted(d) == final(store).whitelisted(d),
        final(store).whitelist == old(store).whitelist,
        final(store).cookie_log == old(store).cookie_log,
        final(store).fingerprint_log == old(store).fingerprint_log,
        final(store).request_log == old(store).request_log,
        final(queue)@ == offer(
            old(queue)@,
            (EventView::TrackerHit { domain: host@, category: Some("regex_match"@) }),
        ),
{
    let (hit_count, was_blocked) = store.increment_tracker(host, Some("regex_match"));
    let event = LogEvent::TrackerHit {
        domain: host.to_owned(),
        category: Some("regex_match".to_owned()),
    };
    proof {
        assert(event@ == (EventView::TrackerHit { domain: host@, category: Some("regex_match"@) }));
    }
    let _ = queue.enqueue(event);
    let mut blocked = was_blocked;
    if !blocked && auto_block && hit_count >= threshold as u64 {
        store.set_blocked(host, true);
        blocked = true;
    }
    blocked
}

/// Whitelist membership always dominates pattern-based blocking: a
/// whitelisted host is never blocked, whatever its counters, its
/// blocked flag, or the patterns say.
pub proof fn lemma_whitelist_dominates(b: Blocker, s: TrackingStore, host: Seq<char>)
    requires
        s.whitelisted(host),
    ensures
        !spec_blocks(b, s, host),
{
}

/// No auto-unblock: once a domain's blocked flag is set, every later
/// check on it comes out blocked, as long as it is not whitelisted and
/// still matches a pattern. check_and_track returns `spec_blocks` of
/// the store it sees and never clears a blocked flag, so the verdict
/// stays `true` across any number of calls. (A whitelisted domain is
/// allowed regardless, and a domain no pattern matches is out of the
/// blocker's reach: both are excluded here.)
pub proof fn lemma_no_auto_unblock(b: Blocker, s: TrackingStore, host: Seq<char>)
    requires
        s.blocked_of(host),
        !s.whitelisted(host),
        regex_set_match(regex_set_patterns(b.patterns), host),
    ensures
        spec_blocks(b, s, host),
{
}

impl Blocker {
    /// The pattern texts this blocker matches against.
    pub open spec fn patterns_view(self) -> Seq<Seq<char>> {
        regex_set_patterns(self.patterns)
    }

    /// Compiles the configured blocking patterns; it succeeds exactly
    /// when they all compile, and a pattern that does not compile is a
    /// configuration error.
    pub fn new(cfg: &Config) -> (r: Result<Blocker, ConfigError>)
        ensures
            (r is Ok) == patterns_compile(pattern_views(cfg.blocking.block_patterns@)),
            (match r {
                Ok(b) => {
                    &&& b.patterns_view() == pattern_views(cfg.blocking.block_patterns@)
                    &&& b.auto_block == cfg.blocking.auto_block
                    &&& b.auto_block_threshold == cfg.blocking.auto_block_threshold
                },
                Err(e) => e == ConfigError::InvalidBlockPattern,
            }),
    {
        match regex_set_new(&cfg.blocking.block_patterns) {
            Ok(set) => Ok(Blocker {
                patterns: set,
                auto_block: cfg.blocking.auto_block,
                auto_block_threshold: cfg.blocking.auto_block_threshold,
            }),
            Err(_) => Err(ConfigError::InvalidBlockPattern),
        }
    }

    /// Whether any blocking pattern matches the host.
    pub fn matches_host(&self, host: &str) -> (r: bool)
        ensures
            r == regex_set_match(self.patterns_view(), host@),
    {
        regex_set_is_match(&self.patterns, host)
    }

    /// Decides whether a request to the host is blocked, tracking the
    /// hit as a side effect. A whitelisted host is never blocked and
    /// nothing is recorded for it; a host no pattern matches is not
    /// blocked and not tracked; a matched host has its counter bumped,
    /// a tracker-hit event offered to the pipeline, and the auto-block
    /// escalation applied. A blocked domain never becomes unblocked.
    pub fn check_and_track(&self, store: &mut TrackingStore, queue: &mut EventQueue, host: &str) -> (blocked: bool)
        requires
            old(store).wf(),
            old(store).hit_count_of(host@) < u64::MAX,
        ensures
            final(store).wf(),
            blocked == spec_blocks(*self, *old(store), host@),
            old(store).whitelisted(host@) ==> *final(store) == *old(store) && *final(queue) == *old(queue),
            !old(store).whitelisted(host@) && !regex_set_match(self.patterns_view(), host@)
                ==> *final(store) == *old(store) && *final(queue) == *old(queue),
            !old(store).whitelisted(host@) && regex_set_match(self.patterns_view(), host@) ==> {
                &&& final(store).hit_count_of(host@) == old(store).hit_count_of(host@) + 1
                &&& final(store).blocked_of(host@) == blocked
                &&& final(queue)@ == offer(
                    old(queue)@,
                    (EventView::TrackerHit { domain: host@, category: Some("regex_match"@) }),
                )
            },
            forall|d: Seq<char>| d != host@ ==> final(store).hit_count_of(d) == old(store).hit_count_of(d),
            forall|d: Seq<char>| d != host@ ==> final(store).blocked_of(d) == old(store).blocked_of(d),
            forall|d: Seq<char>| old(store).blocked_of(d) ==> final(store).blocked_of(d),
            forall|d: Seq<char>| old(store).whitelisted(d) == final(store).whitelisted(d),
            final(store).whitelist == old(store).whitelist,
            final(store).cookie_log == old(store).cookie_log,
            final(store).fingerprint_log == old(store).fingerprint_log,
            final(store).request_log == old(store).request_log,
    {
        if store.is_whitelisted(host) {
            return false;
        }
        if self.matches_host(host) {
            track_matched_host(store, queue, host, self.auto_block, self.auto_block_threshold)
        } else {
            false
        }
    }
}

} // verus!
