//! Stateless cookie-policy evaluator: suffix-based allow/block lists with
//! allow-list precedence, a block-all switch, and optional logging of
//! cookie attempts.

use vstd::prelude::*;

use crate::config::Config;
use crate::config::CookiesConfig;
use crate::text::str_ends_with;
use crate::text::suffix_matches;

verus! {

/// The outcome of evaluating a cookie header against the policy.
#[derive(Clone, Copy, PartialEq, Eq, Structural, Debug)]
pub enum CookieDecision {
    /// Leave the header untouched and log nothing.
    Allow,
    /// Remove the header and report its original value.
    Strip,
    /// Leave the header untouched but report its value.
    Log,
}

/// Some configured domain in the list is a suffix of the host.
pub open spec fn in_suffix_list(list: Seq<String>, host: Seq<char>) -> bool {
    exists|i: int| 0 <= i < list.len() && suffix_matches(host, list[i]@)
}

/// The decision for a request cookie: allow-list membership dominates,
/// then the block list or the block-all switch strips a present cookie,
/// then a present cookie may be logged, and anything else is allowed.
pub open spec fn spec_request_decision(c: CookiesConfig, host: Seq<char>, has_cookie: bool) -> CookieDecision {
    if in_suffix_list(c.allow_list@, host) {
        CookieDecision::Allow
    } else if (in_suffix_list(c.block_list@, host) || c.block_all) && has_cookie {
        CookieDecision::Strip
    } else if c.log_attempts && has_cookie {
        CookieDecision::Log
    } else {
        CookieDecision::Allow
    }
}

/// The decision for a response cookie. When the host could not be
/// resolved, the allow and block lists are skipped and only the
/// block-all and log switches apply.
pub open spec fn spec_response_decision(c: CookiesConfig, host: Option<Seq<char>>, has_cookie: bool) -> CookieDecision {
    match host {
        Some(h) => spec_request_decision(c, h, has_cookie),
        None => if c.block_all && has_cookie {
            CookieDecision::Strip
        } else if c.log_attempts && has_cookie {
            CookieDecision::Log
        } else {
            CookieDecision::Allow
        },
    }
}

/// Allow-list membership always dominates the block list and the
/// block-all switch: a host with an allow-listed suffix is never
/// stripped or logged.
pub proof fn lemma_allow_list_dominates(c: CookiesConfig, host: Seq<char>, has_cookie: bool)
    requires
        in_suffix_list(c.allow_list@, host),
    ensures
        spec_request_decision(c, host, has_cookie) == CookieDecision::Allow,
{
}

/// Handles cookie stripping based on the configured policy.
#[derive(Clone, Debug)]
pub struct CookieHandler {
    /// Application configuration.
    pub config: Config,
}

/// True iff some domain in the list is a suffix of the host.
fn matches_any_suffix(list: &Vec<String>, host: &str) -> (r: bool)
    ensures
        r == in_suffix_list(list@, host@),
{
    let mut i: usize = 0;
    while i < list.len()
        invariant
            i <= list@.len(),
            forall|j: int| 0 <= j < i ==> !suffix_matches(host@, list@[j]@),
        decreases list@.len() - i,
    {
        if str_ends_with(host, list[i].as_str()) {
            return true;
        }
        i += 1;
    }
    false
}

impl CookieHandler {
    /// Creates a new CookieHandler for the given configuration.
    pub fn new(config: Config) -> (r: Self)
        ensures
            r.config == config,
    {
        CookieHandler { config }
    }

    /// Evaluates the cookie policy for a request to the given host that
    /// does or does not carry a Cookie header.
    pub fn evaluate_request_cookie(&self, host: &str, has_cookie: bool) -> (d: CookieDecision)
        ensures
            d == spec_request_decision(self.config.cookies, host@, has_cookie),
    {
        if matches_any_suffix(&self.config.cookies.allow_list, host) {
            CookieDecision::Allow
        } else if (matches_any_suffix(&self.config.cookies.block_list, host)
            || self.config.cookies.block_all) && has_cookie {
            CookieDecision::Strip
        } else if self.config.cookies.log_attempts && has_cookie {
            CookieDecision::Log
        } else {
            CookieDecision::Allow
        }
    }

    /// Evaluates the cookie policy on the response path, where the host
    /// may be unresolvable.
    pub fn evaluate_response_cookie(&self, host: Option<&str>, has_cookie: bool) -> (d: CookieDecision)
        ensures
            d == spec_response_decision(
                self.config.cookies,
                match host {
                    Some(h) => Some(h@),
                    None => None,
                },
                has_cookie,
            ),
    {
        match host {
            Some(h) => self.evaluate_request_cookie(h, has_cookie),
            None => {
                if self.config.cookies.block_all && has_cookie {
                    CookieDecision::Strip
                } else if self.config.cookies.log_attempts && has_cookie {
                    CookieDecision::Log
                } else {
                    CookieDecision::Allow
                }
            },
        }
    }

    /// Applies the request-path policy to the Cookie header of a request:
    /// a stripped header is removed and reported, a logged header is
    /// reported unchanged, and an allowed header is untouched.
    pub fn strip_cookies_request(&self, host: &str, cookie: &mut Option<String>) -> (r: Option<String>)
        ensures
            ({
                let d = spec_request_decision(self.config.cookies, host@, (*old(cookie)) is Some);
                &&& (d == CookieDecision::Strip ==> *final(cookie) is None && r == *old(cookie))
                &&& (d == CookieDecision::Log ==> *final(cookie) == *old(cookie) && r == *old(cookie))
                &&& (d == CookieDecision::Allow ==> *final(cookie) == *old(cookie) && r is None)
            }),
    {
        let d = self.evaluate_request_cookie(host, cookie.is_some());
        apply_decision(d, cookie)
    }

    /// Applies the response-path policy to the Set-Cookie header of a
    /// response, with the host possibly unresolved.
    pub fn strip_cookies_response(&self, host: Option<&str>, cookie: &mut Option<String>) -> (r: Option<String>)
        ensures
            ({
                let d = spec_response_decision(
                    self.config.cookies,
                    match host {
                        Some(h) => Some(h@),
                        None => None,
                    },
                    (*old(cookie)) is Some,
                );
                &&& (d == CookieDecision::Strip ==> *final(cookie) is None && r == *old(cookie))
                &&& (d == CookieDecision::Log ==> *final(cookie) == *old(cookie) && r == *old(cookie))
                &&& (d == CookieDecision::Allow ==> *final(cookie) == *old(cookie) && r is None)
            }),
    {
        let d = self.evaluate_response_cookie(host, cookie.is_some());
        apply_decision(d, cookie)
    }
}

/// Carries out a cookie decision on the header value: Strip takes the
/// value out, Log reports a copy, Allow reports nothing.
fn apply_decision(d: CookieDecision, cookie: &mut Option<String>) -> (r: Option<String>)
    ensures
        d == CookieDecision::Strip ==> *final(cookie) is None && r == *old(cookie),
        d == CookieDecision::Log ==> *final(cookie) == *old(cookie) && r == *old(cookie),
        d == CookieDecision::Allow ==> *final(cookie) == *old(cookie) && r is None,
{
    match d {
        CookieDecision::Strip => cookie.take(),
        CookieDecision::Log => {
            match cookie {
                Some(c) => Some(c.clone()),
                None => None,
            }
        },
        CookieDecision::Allow => None,
    }
}

} // verus!
