//! What is remembered of one client address for the detection of scraping,
//! and the score drawn from it.
//!
//! Times are readings of a monotonic clock in nanoseconds; scores are in
//! thousandths.

use crate::clock::{Clock, NANOS_PER_SEC};
use crate::clock::age;
use crate::score::clamp_score;
use std::collections::HashSet;
use vstd::prelude::*;

verus! {

/// The FNV-1a hash of a byte string, 64 bits wide.
pub open spec fn fnv1a(bytes: Seq<u8>) -> u64
    decreases bytes.len(),
{
    if bytes.len() == 0 {
        0xcbf29ce484222325
    } else {
        (fnv1a(bytes.drop_last()) ^ (bytes.last() as u64)).wrapping_mul(0x100000001b3)
    }
}

/// The hash under which a path is remembered.
pub open spec fn path_hash(path: Seq<char>) -> u64 {
    fnv1a(crate::digest::utf8(path))
}

/// The hash under which `path` is remembered.
pub fn hash_path(path: &str) -> (h: u64)
    ensures
        h == path_hash(path@),
{
    let bytes = path.as_bytes();
    let mut h: u64 = 0xcbf29ce484222325;
    let mut i: usize = 0;
    proof {
        assert(bytes@.take(0) =~= Seq::<u8>::empty());
    }
    while i < bytes.len()
        invariant
            i <= bytes.len(),
            h == fnv1a(bytes@.take(i as int)),
        decreases bytes.len() - i,
    {
        proof {
            assert(bytes@.take(i + 1).drop_last() =~= bytes@.take(i as int));
            assert(bytes@.take(i + 1).last() == bytes@[i as int]);
        }
        h = (h ^ (bytes[i] as u64)).wrapping_mul(0x100000001b3);
        i += 1;
    }
    proof {
        assert(bytes@.take(bytes.len() as int) =~= bytes@);
    }
    h
}

/// The request rate is high: more than one request a second since the
/// session began, some time having passed.
pub open spec fn high_rate(request_count: u64, elapsed_nanos: u64) -> bool {
    elapsed_nanos > 0 && request_count * NANOS_PER_SEC > elapsed_nanos
}

/// The scraping score of a session: 1.0 for a sprung trap, 0.3 for a high
/// request rate, 0.2 for more than 20 different paths, three tenths of the
/// bot score (rounded down to a thousandth), less 0.5 for a solved CAPTCHA;
/// held within 0 and 1.
pub open spec fn scraping_score_of(
    trap_triggered: bool,
    request_count: u64,
    elapsed_nanos: u64,
    unique_path_count: u64,
    bot_score: u32,
    captcha_solved: bool,
) -> int {
    clamp_score(
        (if trap_triggered {
            1000int
        } else {
            0
        }) + (if high_rate(request_count, elapsed_nanos) {
            300int
        } else {
            0
        }) + (if unique_path_count > 20 {
            200int
        } else {
            0
        }) + (bot_score * 3) / 10 - (if captcha_solved {
            500int
        } else {
            0
        }),
    )
}

/// The scraping score from the signals of a session.
pub fn score_session(
    trap_triggered: bool,
    request_count: u64,
    elapsed_nanos: u64,
    unique_path_count: u64,
    bot_score: u32,
    captcha_solved: bool,
) -> (r: u32)
    ensures
        r == scraping_score_of(
            trap_triggered,
            request_count,
            elapsed_nanos,
            unique_path_count,
            bot_score,
            captcha_solved,
        ),
        r <= 1000,
{
    let mut score: i64 = 0;
    assert(request_count * NANOS_PER_SEC <= u128::MAX) by (nonlinear_arith)
        requires
            request_count <= u64::MAX,
            NANOS_PER_SEC == 1_000_000_000,
    ;
    if trap_triggered {
        score = score + 1000;
    }
    if elapsed_nanos > 0 && (request_count as u128) * (NANOS_PER_SEC as u128) > (
    elapsed_nanos as u128) {
        score = score + 300;
    }
    if unique_path_count > 20 {
        score = score + 200;
    }
    score = score + ((bot_score as u64 * 3) / 10) as i64;
    if captcha_solved {
        score = score - 500;
    }
    if score < 0 {
        0
    } else if score > 1000 {
        1000
    } else {
        score as u32
    }
}

/// The session of one client address.
#[derive(Debug)]
pub struct ScrapingSession {
    pub first_seen: u64,
    pub last_seen: u64,
    pub request_count: u64,
    pub unique_path_count: u64,
    /// The hashes of the paths asked for so far.
    pub path_hashes: HashSet<u64>,
    pub trap_triggered: bool,
    pub captcha_solved: bool,
    /// In thousandths.
    pub scraping_score: u32,
    /// Counts from the moment the session was made.
    pub clock: Clock,
}

impl ScrapingSession {
    /// The hashes of the paths asked for so far.
    pub open spec fn paths(&self) -> Set<u64> {
        self.path_hashes@
    }

    /// The count of different paths is the number of hashes held, and the
    /// score lies within 0 and 1.
    pub open spec fn wf(&self) -> bool {
        &&& self.paths().finite()
        &&& self.unique_path_count == self.paths().len()
        &&& self.scraping_score <= 1000
    }

    /// The session was last seen less than `max_age_nanos` before `now`; one
    /// seen after `now` counts as seen at `now`.
    pub open spec fn is_fresh(&self, now: u64, max_age_nanos: u64) -> bool {
        age(now, self.last_seen) < max_age_nanos
    }

    /// The score of the session is at or above `threshold`.
    pub open spec fn is_flagged(&self, threshold: u32) -> bool {
        self.scraping_score >= threshold
    }

    /// A session that begins at `now`, with nothing recorded.
    pub fn new_at(now: u64) -> (s: ScrapingSession)
        ensures
            s.wf(),
            s.first_seen == now,
            s.last_seen == now,
            s.request_count == 0,
            s.unique_path_count == 0,
            s.paths() == Set::<u64>::empty(),
            !s.trap_triggered,
            !s.captcha_solved,
            s.scraping_score == 0,
    {
        ScrapingSession {
            first_seen: now,
            last_seen: now,
            request_count: 0,
            unique_path_count: 0,
            path_hashes: HashSet::new(),
            trap_triggered: false,
            captcha_solved: false,
            scraping_score: 0,
            clock: Clock::new(),
        }
    }

    /// A session whose own clock starts now: it begins at the reading 0 of
    /// that clock.
    pub fn new() -> (s: ScrapingSession)
        ensures
            s.wf(),
            s.first_seen == 0,
            s.last_seen == 0,
            s.request_count == 0,
            s.unique_path_count == 0,
            s.paths() == Set::<u64>::empty(),
            !s.trap_triggered,
            !s.captcha_solved,
            s.scraping_score == 0,
    {
        ScrapingSession::new_at(0)
    }

    /// `next` is this session once a request for `path` is recorded at `now`
    /// from a client with the given bot score: the request is counted, the
    /// path remembered, `now` the last time seen, and the score computed
    /// anew. The counters stop at `u64::MAX`.
    pub open spec fn records_to(
        &self,
        next: ScrapingSession,
        path: Seq<char>,
        bot_score: u32,
        now: u64,
    ) -> bool {
        &&& next.first_seen == self.first_seen
        &&& next.last_seen == now
        &&& next.request_count == (if self.request_count == u64::MAX {
            u64::MAX
        } else {
            (self.request_count + 1) as u64
        })
        &&& next.paths() == self.paths().insert(path_hash(path))
        &&& next.unique_path_count == (if self.paths().contains(path_hash(path))
            || self.unique_path_count == u64::MAX {
            self.unique_path_count
        } else {
            (self.unique_path_count + 1) as u64
        })
        &&& next.trap_triggered == self.trap_triggered
        &&& next.captcha_solved == self.captcha_solved
        &&& next.scraping_score == scraping_score_of(
            next.trap_triggered,
            next.request_count,
            age(now, self.first_seen) as u64,
            next.unique_path_count,
            bot_score,
            next.captcha_solved,
        )
    }

    /// Records a request for `path` at `now`, from a client with the given
    /// bot score, and computes the score of the session anew.
    ///
    /// The counters stop at `u64::MAX`.
    pub fn record_request_at(&mut self, path: &str, bot_score: u32, now: u64)
        ensures
            old(self).records_to(*final(self), path@, bot_score, now),
            final(self).first_seen == old(self).first_seen,
            final(self).last_seen == now,
            final(self).request_count == (if old(self).request_count == u64::MAX {
                u64::MAX
            } else {
                (old(self).request_count + 1) as u64
            }),
            final(self).paths() == old(self).paths().insert(path_hash(path@)),
            final(self).unique_path_count == (if old(self).paths().contains(path_hash(path@))
                || old(self).unique_path_count == u64::MAX {
                old(self).unique_path_count
            } else {
                (old(self).unique_path_count + 1) as u64
            }),
            final(self).trap_triggered == old(self).trap_triggered,
            final(self).captcha_solved == old(self).captcha_solved,
            final(self).scraping_score == scraping_score_of(
                final(self).trap_triggered,
                final(self).request_count,
                age(now, old(self).first_seen) as u64,
                final(self).unique_path_count,
                bot_score,
                final(self).captcha_solved,
            ),
            old(self).wf() ==> final(self).wf(),
    {
        broadcast use vstd::std_specs::hash::group_hash_axioms;

        self.request_count = self.request_count.saturating_add(1);
        self.last_seen = now;
        let h = hash_path(path);
        if self.path_hashes.insert(h) {
            self.unique_path_count = self.unique_path_count.saturating_add(1);
        }
        self.scraping_score = score_session(
            self.trap_triggered,
            self.request_count,
            self.last_seen.saturating_sub(self.first_seen),
            self.unique_path_count,
            bot_score,
            self.captcha_solved,
        );
        proof {
            if old(self).wf() {
                let n = self.path_hashes.len();
                assert(self.paths().len() <= usize::MAX) by {
                    vstd::std_specs::hash::axiom_spec_hash_set_len(&self.path_hashes);
                }
            }
        }
    }

    /// Records a request for `path` now: at the time of the session's start
    /// plus what its clock has counted since. The session afterwards is that
    /// of [`Self::record_request_at`] at some reading no earlier than the
    /// session's start.
    pub fn record_request(&mut self, path: &str, bot_score: u32)
        ensures
            exists|now: u64|
                now >= old(self).first_seen && #[trigger] old(self).records_to(
                    *final(self),
                    path@,
                    bot_score,
                    now,
                ),
            final(self).first_seen == old(self).first_seen,
            final(self).paths() == old(self).paths().insert(path_hash(path@)),
            final(self).trap_triggered == old(self).trap_triggered,
            final(self).captcha_solved == old(self).captcha_solved,
            final(self).scraping_score <= 1000,
            old(self).request_count < u64::MAX ==> final(self).request_count == old(self).request_count + 1,
            old(self).wf() ==> final(self).wf(),
    {
        let now = self.first_seen.saturating_add(self.clock.now_nanos());
        self.record_request_at(path, bot_score, now);
    }

    /// Whether the session was last seen less than `max_age_nanos` before
    /// `now`.
    pub fn seen_within(&self, now: u64, max_age_nanos: u64) -> (r: bool)
        ensures
            r == self.is_fresh(now, max_age_nanos),
    {
        now.saturating_sub(self.last_seen) < max_age_nanos
    }

    /// Whether the score of the session is at or above `threshold`.
    pub fn flagged(&self, threshold: u32) -> (r: bool)
        ensures
            r == self.is_flagged(threshold),
    {
        self.scraping_score >= threshold
    }
}

} // verus!
