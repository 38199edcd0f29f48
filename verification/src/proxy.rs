//! Per-exchange orchestration: block or forward the request, evaluate
//! and strip cookies, rotate fingerprint headers, and offer the
//! resulting events to the pipeline. The transport layer hands requests
//! and responses in as plain header values and carries the mutated ones
//! back out.

use vstd::prelude::*;

use crate::blocker::Blocker;
use crate::blocker::spec_blocks;
use crate::blocker::regex_set_match;
use crate::blocker::regex_set_patterns;
use crate::cookie::CookieDecision;
use crate::cookie::CookieHandler;
use crate::cookie::spec_request_decision;
use crate::cookie::spec_response_decision;
use crate::pipeline::EventQueue;
use crate::pipeline::EventView;
use crate::pipeline::LogEvent;
use crate::pipeline::offer;
use crate::pipeline::offer_all;
use crate::pipeline::lemma_offer_all_push;
use crate::randomizer::Randomizer;
use crate::randomizer::spec_rotated;
use crate::store::TrackingStore;

verus! {

/// What an intercepted request looks like to the policy engine: its
/// host and path, the headers the engine may read or rewrite, and the
/// client address.
pub struct RequestModel {
    /// Destination host.
    pub host: String,
    /// Request path.
    pub path: String,
    /// The Cookie header value, when present.
    pub cookie: Option<String>,
    /// The User-Agent header value, when present.
    pub user_agent: Option<String>,
    /// The Accept-Language header value, when present.
    pub accept_language: Option<String>,
    /// The Referer header value, when present.
    pub referer: Option<String>,
    /// Client address as reported by the transport.
    pub client_ip: String,
}

/// What an intercepted response looks like to the policy engine.
pub struct ResponseModel {
    /// The Set-Cookie header value, when present.
    pub set_cookie: Option<String>,
}

/// The verdict on a request.
#[derive(Clone, Copy, PartialEq, Eq, Structural, Debug)]
pub enum RequestOutcome {
    /// Deny the exchange; the transport sends a terminal response.
    Blocked,
    /// Forward the (possibly mutated) request.
    Forward,
}

/// Shared state of the proxy handler.
pub struct ProxyState {
    /// Rotator for User-Agent and Accept-Language.
    pub randomizer: Randomizer,
    /// Cookie policy evaluator.
    pub cookie_handler: CookieHandler,
    /// Domain blocker.
    pub blocker: Blocker,
}

/// The policy engine behind the transport's request and response hooks.
pub struct PrivacyHandler {
    /// Shared state.
    pub state: ProxyState,
}

/// The events one request offers to the pipeline, in order: the tracker
/// hit when a pattern matched a non-whitelisted host; then, unless the
/// request is blocked, the cookie event when a cookie was stripped or
/// logged, the fingerprint event when a rotation took place, and the
/// request event itself.
pub open spec fn spec_request_events(
    b: Blocker,
    handler: CookieHandler,
    rand_pre: Randomizer,
    rand_post: Randomizer,
    store_pre: TrackingStore,
    req_pre: RequestModel,
    req_post: RequestModel,
    now: u64,
) -> Seq<EventView> {
    let host = req_pre.host@;
    let hit = !store_pre.whitelisted(host) && regex_set_match(regex_set_patterns(b.patterns), host);
    let tracker: Seq<EventView> = if hit {
        seq![(EventView::TrackerHit { domain: host, category: Some("regex_match"@) })]
    } else {
        Seq::empty()
    };
    if spec_blocks(b, store_pre, host) {
        tracker
    } else {
        let d = spec_request_decision(handler.config.cookies, host, req_pre.cookie is Some);
        let with_cookie: Seq<EventView> = if d == CookieDecision::Strip || d == CookieDecision::Log {
            tracker.push(
                (EventView::Cookie { domain: host, cookie: req_pre.cookie.unwrap()@, blocked: true }),
            )
        } else {
            tracker
        };
        let with_fp: Seq<EventView> = if spec_rotated(rand_pre, now) {
            with_cookie.push(
                (EventView::Fingerprint {
                    user_agent: rand_post.current_ua@,
                    accept_language: rand_post.current_lang@,
                    mode: rand_pre.mode.spec_name(),
                }),
            )
        } else {
            with_cookie
        };
        with_fp.push(
            (EventView::Request {
                domain: host,
                path: req_pre.path@,
                user_agent: (match req_post.user_agent {
                    Some(u) => u@,
                    None => "unknown"@,
                }),
                client_ip: req_pre.client_ip@,
            }),
        )
    }
}

impl PrivacyHandler {
    /// Handles one intercepted request: consults the blocker (which
    /// tracks the hit), and on a blocked host reports the deny verdict
    /// with nothing else touched; otherwise strips or logs the cookie
    /// header, rotates the fingerprint headers under the rotation
    /// policy, strips the Referer header if configured, and offers the
    /// resulting events to the pipeline.
    pub fn handle_request(
        &mut self,
        store: &mut TrackingStore,
        queue: &mut EventQueue,
        req: &mut RequestModel,
        now: u64,
    ) -> (r: RequestOutcome)
        requires
            old(store).wf(),
            old(store).hit_count_of(old(req).host@) < u64::MAX,
            old(self).state.randomizer.wf(),
        ensures
            final(store).wf(),
            final(self).state.randomizer.wf(),
            final(self).state.blocker == old(self).state.blocker,
            final(self).state.cookie_handler == old(self).state.cookie_handler,
            r == (if spec_blocks(old(self).state.blocker, *old(store), old(req).host@) {
                RequestOutcome::Blocked
            } else {
                RequestOutcome::Forward
            }),
            // what the blocker did to the store
            old(store).whitelisted(old(req).host@) ==> *final(store) == *old(store),
            !old(store).whitelisted(old(req).host@)
                && !regex_set_match(regex_set_patterns(old(self).state.blocker.patterns), old(req).host@)
                ==> *final(store) == *old(store),
            !old(store).whitelisted(old(req).host@)
                && regex_set_match(regex_set_patterns(old(self).state.blocker.patterns), old(req).host@)
                ==> final(store).hit_count_of(old(req).host@) == old(store).hit_count_of(old(req).host@) + 1
                    && final(store).blocked_of(old(req).host@) == (r == RequestOutcome::Blocked),
            forall|d: Seq<char>| d != old(req).host@
                ==> final(store).hit_count_of(d) == old(store).hit_count_of(d),
            forall|d: Seq<char>| d != old(req).host@
                ==> final(store).blocked_of(d) == old(store).blocked_of(d),
            forall|d: Seq<char>| old(store).blocked_of(d) ==> final(store).blocked_of(d),
            forall|d: Seq<char>| old(store).whitelisted(d) == final(store).whitelisted(d),
            final(store).cookie_log == old(store).cookie_log,
            final(store).fingerprint_log == old(store).fingerprint_log,
            final(store).request_log == old(store).request_log,
            // what happened to the request
            final(req).host == old(req).host,
            final(req).path == old(req).path,
            final(req).client_ip == old(req).client_ip,
            r == RequestOutcome::Blocked ==> *final(req) == *old(req) && *final(self) == *old(self),
            r == RequestOutcome::Forward ==> {
                let d = spec_request_decision(
                    old(self).state.cookie_handler.config.cookies,
                    old(req).host@,
                    old(req).cookie is Some,
                );
                let rotated = spec_rotated(old(self).state.randomizer, now);
                &&& (d == CookieDecision::Strip ==> final(req).cookie is None)
                &&& (d != CookieDecision::Strip ==> final(req).cookie == old(req).cookie)
                &&& (old(self).state.randomizer.strip_referer ==> final(req).referer is None)
                &&& (!old(self).state.randomizer.strip_referer
                    ==> final(req).referer == old(req).referer)
                &&& (rotated && old(self).state.randomizer.randomize_user_agent
                    ==> final(req).user_agent == Some(final(self).state.randomizer.current_ua))
                &&& (!(rotated && old(self).state.randomizer.randomize_user_agent)
                    ==> final(req).user_agent == old(req).user_agent)
                &&& (rotated && old(self).state.randomizer.randomize_accept_language
                    ==> final(req).accept_language == Some(final(self).state.randomizer.current_lang))
                &&& (!(rotated && old(self).state.randomizer.randomize_accept_language)
                    ==> final(req).accept_language == old(req).accept_language)
                // the rotation step was applied atomically with the decision
                &&& (!rotated ==> final(self).state.randomizer == old(self).state.randomizer)
                &&& (rotated ==> final(self).state.randomizer.last_rotation == (
                    if old(self).state.randomizer.mode == crate::config::RotationMode::Interval {
                        now
                    } else {
                        old(self).state.randomizer.last_rotation
                    }))
            },
            // the rotation policy itself never changes
            final(self).state.randomizer.mode == old(self).state.randomizer.mode,
            final(self).state.randomizer.interval_secs == old(self).state.randomizer.interval_secs,
            final(self).state.randomizer.randomize_user_agent
                == old(self).state.randomizer.randomize_user_agent,
            final(self).state.randomizer.randomize_accept_language
                == old(self).state.randomizer.randomize_accept_language,
            final(self).state.randomizer.strip_referer == old(self).state.randomizer.strip_referer,
            final(self).state.randomizer.languages == old(self).state.randomizer.languages,
            // every event this request produced was offered, in order
            final(queue)@ == offer_all(
                old(queue)@,
                spec_request_events(
                    old(self).state.blocker,
                    old(self).state.cookie_handler,
                    old(self).state.randomizer,
                    final(self).state.randomizer,
                    *old(store),
                    *old(req),
                    *final(req),
                    now,
                ),
            ),
    {
        let ghost q0 = queue@;
        let blocked = self.state.blocker.check_and_track(store, queue, req.host.as_str());
        let ghost tracker: Seq<EventView> = if !old(store).whitelisted(old(req).host@)
            && regex_set_match(regex_set_patterns(old(self).state.blocker.patterns), old(req).host@) {
            seq![(EventView::TrackerHit { domain: old(req).host@, category: Some("regex_match"@) })]
        } else {
            Seq::empty()
        };
        proof {
            if tracker.len() > 0 {
                lemma_offer_all_push(q0, Seq::empty(), tracker[0]);
                assert(Seq::<EventView>::empty().push(tracker[0]) =~= tracker);
            }
            assert(queue@ == offer_all(q0, tracker));
        }
        if blocked {
            return RequestOutcome::Blocked;
        }
        let stripped = self.state.cookie_handler.strip_cookies_request(req.host.as_str(), &mut req.cookie);
        let ghost with_cookie: Seq<EventView> = tracker;
        let ghost with_cookie = match stripped {
            Some(ref c) => tracker.push(
                (EventView::Cookie { domain: old(req).host@, cookie: c@, blocked: true }),
            ),
            None => tracker,
        };
        match stripped {
            Some(c) => {
                let ev = LogEvent::Cookie { domain: req.host.clone(), cookie: c, blocked: true };
                proof {
                    lemma_offer_all_push(q0, tracker, ev@);
                }
                let _ = queue.enqueue(ev);
            },
            None => {},
        }
        proof {
            assert(queue@ == offer_all(q0, with_cookie));
        }
        let (ua, lang, rotated) = self.state.randomizer.decide_and_rotate(now);
        let ghost with_fp: Seq<EventView> = if rotated {
            with_cookie.push(
                (EventView::Fingerprint {
                    user_agent: ua@,
                    accept_language: lang@,
                    mode: old(self).state.randomizer.mode.spec_name(),
                }),
            )
        } else {
            with_cookie
        };
        if rotated {
            if self.state.randomizer.randomize_user_agent {
                req.user_agent = Some(ua.clone());
            }
            if self.state.randomizer.randomize_accept_language {
                req.accept_language = Some(lang.clone());
            }
            let ev = LogEvent::Fingerprint {
                user_agent: ua,
                accept_language: lang,
                mode: self.state.randomizer.mode.name(),
            };
            proof {
                lemma_offer_all_push(q0, with_cookie, ev@);
            }
            let _ = queue.enqueue(ev);
        }
        proof {
            assert(queue@ == offer_all(q0, with_fp));
        }
        if self.state.randomizer.strip_referer {
            req.referer = None;
        }
        let req_ua = match &req.user_agent {
            Some(u) => u.clone(),
            None => "unknown".to_owned(),
        };
        let ev = LogEvent::Request {
            domain: req.host.clone(),
            path: req.path.clone(),
            user_agent: req_ua,
            client_ip: req.client_ip.clone(),
        };
        proof {
            lemma_offer_all_push(q0, with_fp, ev@);
        }
        let _ = queue.enqueue(ev);
        proof {
            assert(queue@ == offer_all(q0, with_fp.push(ev@)));
            assert(with_fp.push(ev@) =~= spec_request_events(
                old(self).state.blocker,
                old(self).state.cookie_handler,
                old(self).state.randomizer,
                self.state.randomizer,
                *old(store),
                *old(req),
                *req,
                now,
            ));
        }
        RequestOutcome::Forward
    }

    /// Handles one intercepted response: strips or logs its Set-Cookie
    /// header under the response-path policy (the host is not
    /// resolvable there, so only the block-all and log switches apply)
    /// and offers the cookie event, recorded against the unresolved
    /// domain, to the pipeline.
    pub fn handle_response(&self, queue: &mut EventQueue, res: &mut ResponseModel)
        ensures
            ({
                let d = spec_response_decision(
                    self.state.cookie_handler.config.cookies,
                    None,
                    old(res).set_cookie is Some,
                );
                &&& (d == CookieDecision::Strip ==> final(res).set_cookie is None)
                &&& (d != CookieDecision::Strip ==> final(res).set_cookie == old(res).set_cookie)
                &&& (d == CookieDecision::Strip || d == CookieDecision::Log ==> final(queue)@ == offer(
                    old(queue)@,
                    (EventView::Cookie {
                        domain: "response"@,
                        cookie: old(res).set_cookie.unwrap()@,
                        blocked: true,
                    }),
                ))
                &&& (d == CookieDecision::Allow ==> *final(queue) == *old(queue))
            }),
    {
        let stripped = self.state.cookie_handler.strip_cookies_response(None, &mut res.set_cookie);
        match stripped {
            Some(c) => {
                let _ = queue.enqueue(
                    LogEvent::Cookie { domain: "response".to_owned(), cookie: c, blocked: true },
                );
            },
            None => {},
        }
    }
}

} // verus!
