//! Fingerprint rotation: random User-Agent and Accept-Language values,
//! regenerated per request, on an interval, or only at startup,
//! according to the rotation mode.

use vstd::prelude::*;

use crate::config::ConfigError;
use crate::config::FingerprintConfig;
use crate::config::RotationMode;
use crate::config::parse_rotation_mode;
use crate::config::spec_rotation_mode;

verus! {

/// Relies on rand_agents::user_agent: it formats a User-Agent string
/// from nonempty constant tables, so the result is random but never
/// empty.
#[verifier::external_body]
fn random_user_agent() -> (r: String)
    ensures
        r@.len() > 0,
{
    rand_agents::user_agent()
}

/// Relies on rand::Rng::gen_range: a value drawn from the nonempty
/// range is within it.
#[verifier::external_body]
fn random_index(n: usize) -> (r: usize)
    requires
        n > 0,
    ensures
        r < n,
{
    rand::Rng::gen_range(&mut rand::thread_rng(), 0..n)
}

/// The Accept-Language value used when the configured pool is empty.
pub open spec fn fallback_language() -> Seq<char> {
    "en-US,en;q=0.9"@
}

/// The value comes from the pool, or is the fallback when the pool is
/// empty.
pub open spec fn lang_from_pool(pool: Seq<String>, l: Seq<char>) -> bool {
    if pool.len() == 0 {
        l == fallback_language()
    } else {
        exists|i: int| 0 <= i < pool.len() && l == #[trigger] pool[i]@
    }
}

/// Copies the language pool; the copy's view equals the original's.
fn clone_string_vec(v: &Vec<String>) -> (r: Vec<String>)
    ensures
        r@ == v@,
{
    let mut r: Vec<String> = Vec::new();
    let mut i: usize = 0;
    while i < v.len()
        invariant
            i <= v@.len(),
            r@.len() == i,
            forall|j: int| 0 <= j < i ==> r@[j] == v@[j],
        decreases v@.len() - i,
    {
        r.push(v[i].clone());
        i += 1;
    }
    proof {
        assert(r@ =~= v@);
    }
    r
}

/// Picks a random language from the pool, or the fallback when the pool
/// is empty.
fn pick_language(pool: &Vec<String>) -> (r: String)
    ensures
        lang_from_pool(pool@, r@),
{
    if pool.len() == 0 {
        "en-US,en;q=0.9".to_owned()
    } else {
        let i = random_index(pool.len());
        pool[i].clone()
    }
}

/// An interval rotation is due once the configured number of seconds
/// has elapsed since the last rotation.
pub open spec fn rotation_due(last: u64, interval: u64, now: u64) -> bool {
    (if now >= last {
        (now - last) as u64
    } else {
        0
    }) >= interval
}

/// Whether a rotation step at time `now` regenerates values: always in
/// per-request mode, once due in interval mode, never in launch mode.
pub open spec fn spec_rotated(r: Randomizer, now: u64) -> bool {
    match r.mode {
        RotationMode::EveryRequest => true,
        RotationMode::Interval => rotation_due(r.last_rotation, r.interval_secs, now),
        RotationMode::Launch => false,
    }
}

/// Generates and rotates browser-fingerprint header values
/// (User-Agent, Accept-Language) under the configured rotation policy.
pub struct Randomizer {
    /// The current User-Agent value.
    pub current_ua: String,
    /// The current Accept-Language value.
    pub current_lang: String,
    /// When values are regenerated.
    pub mode: RotationMode,
    /// Seconds between rotations in interval mode.
    pub interval_secs: u64,
    /// Whether to rotate the User-Agent header.
    pub randomize_user_agent: bool,
    /// Whether to rotate the Accept-Language header.
    pub randomize_accept_language: bool,
    /// Whether the Referer header is stripped; consulted by the
    /// orchestrator, no rotation state of its own.
    pub strip_referer: bool,
    /// Pool of Accept-Language values to choose from.
    pub languages: Vec<String>,
    /// When the values were last rotated, in seconds since the epoch.
    pub last_rotation: u64,
}

impl Randomizer {
    /// The User-Agent is never empty and the language always comes from
    /// the pool (or is the fallback).
    pub open spec fn wf(self) -> bool {
        &&& self.current_ua@.len() > 0
        &&& lang_from_pool(self.languages@, self.current_lang@)
    }

    /// Creates a Randomizer from the fingerprint configuration: parses
    /// the rotation mode (an unrecognized mode is a configuration
    /// error), picks initial random values, and records `now` as the
    /// time of that initial rotation.
    pub fn new(cfg: &FingerprintConfig, now: u64) -> (r: Result<Self, ConfigError>)
        ensures
            (match r {
                Ok(rot) => {
                    &&& rot.wf()
                    &&& Some(rot.mode) == spec_rotation_mode(cfg.rotation_mode@)
                    &&& rot.interval_secs == cfg.rotation_interval
                    &&& rot.randomize_user_agent == cfg.randomize_user_agent
                    &&& rot.randomize_accept_language == cfg.randomize_accept_language
                    &&& rot.strip_referer == cfg.strip_referer
                    &&& rot.languages@ == cfg.accept_languages@
                    &&& rot.last_rotation == now
                },
                Err(e) => {
                    &&& e == ConfigError::UnknownRotationMode
                    &&& spec_rotation_mode(cfg.rotation_mode@) is None
                },
            }),
    {
        let mode = match parse_rotation_mode(cfg.rotation_mode.as_str()) {
            Ok(m) => m,
            Err(e) => {
                return Err(e);
            },
        };
        let ua = random_user_agent();
        let lang = pick_language(&cfg.accept_languages);
        Ok(Randomizer {
            current_ua: ua,
            current_lang: lang,
            mode,
            interval_secs: cfg.rotation_interval,
            randomize_user_agent: cfg.randomize_user_agent,
            randomize_accept_language: cfg.randomize_accept_language,
            strip_referer: cfg.strip_referer,
            languages: clone_string_vec(&cfg.accept_languages),
            last_rotation: now,
        })
    }

    /// Replaces the current User-Agent with a fresh random value and
    /// returns it.
    pub fn rotate_user_agent(&mut self) -> (r: String)
        requires
            old(self).wf(),
        ensures
            final(self).wf(),
            r == final(self).current_ua,
            r@.len() > 0,
            final(self).current_lang == old(self).current_lang,
            final(self).mode == old(self).mode,
            final(self).interval_secs == old(self).interval_secs,
            final(self).randomize_user_agent == old(self).randomize_user_agent,
            final(self).randomize_accept_language == old(self).randomize_accept_language,
            final(self).strip_referer == old(self).strip_referer,
            final(self).languages == old(self).languages,
            final(self).last_rotation == old(self).last_rotation,
    {
        self.current_ua = random_user_agent();
        self.current_ua.clone()
    }

    /// Replaces the current Accept-Language with a fresh random value
    /// from the pool (or the fallback) and returns it.
    pub fn rotate_accept_language(&mut self) -> (r: String)
        requires
            old(self).wf(),
        ensures
            final(self).wf(),
            r == final(self).current_lang,
            lang_from_pool(old(self).languages@, r@),
            final(self).current_ua == old(self).current_ua,
            final(self).mode == old(self).mode,
            final(self).interval_secs == old(self).interval_secs,
            final(self).randomize_user_agent == old(self).randomize_user_agent,
            final(self).randomize_accept_language == old(self).randomize_accept_language,
            final(self).strip_referer == old(self).strip_referer,
            final(self).languages == old(self).languages,
            final(self).last_rotation == old(self).last_rotation,
    {
        self.current_lang = pick_language(&self.languages);
        self.current_lang.clone()
    }

    /// Decides and applies one rotation step for an outbound request at
    /// time `now`, atomically with the decision: per-request mode always
    /// rotates (each enabled field), interval mode rotates once the
    /// interval has elapsed, launch mode never rotates after startup.
    /// Returns the current User-Agent and Accept-Language and whether a
    /// rotation took place.
    pub fn decide_and_rotate(&mut self, now: u64) -> (r: (String, String, bool))
        requires
            old(self).wf(),
        ensures
            final(self).wf(),
            r.0 == final(self).current_ua,
            r.1 == final(self).current_lang,
            final(self).mode == old(self).mode,
            final(self).interval_secs == old(self).interval_secs,
            final(self).randomize_user_agent == old(self).randomize_user_agent,
            final(self).randomize_accept_language == old(self).randomize_accept_language,
            final(self).strip_referer == old(self).strip_referer,
            final(self).languages == old(self).languages,
            r.2 == spec_rotated(*old(self), now),
            old(self).mode == RotationMode::Launch ==> *final(self) == *old(self) && r.2 == false,
            old(self).mode == RotationMode::EveryRequest ==> {
                &&& r.2 == true
                &&& final(self).last_rotation == old(self).last_rotation
                &&& !old(self).randomize_user_agent ==> final(self).current_ua == old(self).current_ua
                &&& !old(self).randomize_accept_language
                    ==> final(self).current_lang == old(self).current_lang
            },
            old(self).mode == RotationMode::Interval
                && rotation_due(old(self).last_rotation, old(self).interval_secs, now) ==> {
                &&& r.2 == true
                &&& final(self).last_rotation == now
                &&& !old(self).randomize_user_agent ==> final(self).current_ua == old(self).current_ua
                &&& !old(self).randomize_accept_language
                    ==> final(self).current_lang == old(self).current_lang
            },
            old(self).mode == RotationMode::Interval
                && !rotation_due(old(self).last_rotation, old(self).interval_secs, now)
                ==> *final(self) == *old(self) && r.2 == false,
    {
        match self.mode {
            RotationMode::Launch => (self.current_ua.clone(), self.current_lang.clone(), false),
            RotationMode::EveryRequest => {
                if self.randomize_user_agent {
                    let _ = self.rotate_user_agent();
                }
                if self.randomize_accept_language {
                    let _ = self.rotate_accept_language();
                }
                (self.current_ua.clone(), self.current_lang.clone(), true)
            },
            RotationMode::Interval => {
                let elapsed = if now >= self.last_rotation {
                    now - self.last_rotation
                } else {
                    0
                };
                if elapsed >= self.interval_secs {
                    if self.randomize_user_agent {
                        let _ = self.rotate_user_agent();
                    }
                    if self.randomize_accept_language {
                        let _ = self.rotate_accept_language();
                    }
                    self.last_rotation = now;
                    (self.current_ua.clone(), self.current_lang.clone(), true)
                } else {
                    (self.current_ua.clone(), self.current_lang.clone(), false)
                }
            },
        }
    }
}

} // verus!
