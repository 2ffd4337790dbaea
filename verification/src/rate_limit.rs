//! The rate limiter: one of two algorithms, chosen when it is made.

use crate::clock::NANOS_PER_SEC;
use crate::sliding_window::{fresh_windows, SlidingWindowLimiter, SlidingWindowState};
use crate::token_bucket::{fresh_buckets, TokenBucketLimiter, TokenBucketState};
use vstd::prelude::*;

verus! {

/// The algorithm of a rate limiter, with its state.
pub enum RateLimiterInner {
    TokenBucket(TokenBucketLimiter),
    SlidingWindow(SlidingWindowLimiter),
}

/// A rate limiter for requests by key.
pub struct RateLimiter {
    pub inner: RateLimiterInner,
}

impl RateLimiter {
    /// The state of the algorithm is well formed.
    pub open spec fn wf(&self) -> bool {
        match self.inner {
            RateLimiterInner::TokenBucket(l) => l.wf(),
            RateLimiterInner::SlidingWindow(l) => l.wf(),
        }
    }

    /// A request for `key` at `now` is admitted.
    pub open spec fn admits(&self, key: Seq<char>, now: u64) -> bool {
        match self.inner {
            RateLimiterInner::TokenBucket(l) => l.bucket_for(key, now).admits(now),
            RateLimiterInner::SlidingWindow(l) => l.window_for(key, now).admits(now),
        }
    }

    /// `next` is this limiter after a request for `key` at `now`.
    pub open spec fn steps_to(&self, next: RateLimiter, key: Seq<char>, now: u64) -> bool {
        match (self.inner, next.inner) {
            (RateLimiterInner::TokenBucket(a), RateLimiterInner::TokenBucket(b)) => {
                &&& b.rate() == a.rate()
                &&& b.burst() == a.burst()
                &&& b.buckets() == a.buckets().insert(key, a.bucket_for(key, now).after(now))
            },
            (RateLimiterInner::SlidingWindow(a), RateLimiterInner::SlidingWindow(b)) => {
                &&& b.window_secs() == a.window_secs()
                &&& b.limit() == a.limit()
                &&& b.windows() == a.windows().insert(key, a.window_for(key, now).after(now))
            },
            _ => false,
        }
    }

    /// `next` is this limiter with some entries dropped and nothing else
    /// changed.
    pub open spec fn shrinks_to(&self, next: RateLimiter) -> bool {
        match (self.inner, next.inner) {
            (RateLimiterInner::TokenBucket(a), RateLimiterInner::TokenBucket(b)) => {
                &&& b.rate() == a.rate()
                &&& b.burst() == a.burst()
                &&& forall|k: Seq<char>| #[trigger]
                    b.buckets().contains_key(k) ==> a.buckets().contains_key(k) && b.buckets()[k]
                        == a.buckets()[k]
            },
            (RateLimiterInner::SlidingWindow(a), RateLimiterInner::SlidingWindow(b)) => {
                &&& b.window_secs() == a.window_secs()
                &&& b.limit() == a.limit()
                &&& forall|k: Seq<char>| #[trigger]
                    b.windows().contains_key(k) ==> a.windows().contains_key(k) && b.windows()[k]
                        == a.windows()[k]
            },
            _ => false,
        }
    }

    /// `next` is this limiter with the entries dropped that are not fresh at
    /// `now`, and nothing else changed: a bucket is fresh for five minutes
    /// after its last use, counters for two windows after their window
    /// began.
    pub open spec fn cleans_to(&self, next: RateLimiter, now: u64) -> bool {
        match (self.inner, next.inner) {
            (RateLimiterInner::TokenBucket(a), RateLimiterInner::TokenBucket(b)) => {
                &&& b.rate() == a.rate()
                &&& b.burst() == a.burst()
                &&& fresh_buckets(a.buckets(), b.buckets(), now)
            },
            (RateLimiterInner::SlidingWindow(a), RateLimiterInner::SlidingWindow(b)) => {
                &&& b.window_secs() == a.window_secs()
                &&& b.limit() == a.limit()
                &&& fresh_windows(a.windows(), b.windows(), now)
            },
            _ => false,
        }
    }

    /// A limiter with a token bucket for each key: `rps` tokens a second,
    /// `burst` at most.
    pub fn new_token_bucket(rps: u64, burst: u64) -> (l: RateLimiter)
        ensures
            l.wf(),
            l.inner matches RateLimiterInner::TokenBucket(t) && t.rate() == rps && t.burst() == burst
                && t.buckets() == Map::<Seq<char>, TokenBucketState>::empty(),
    {
        RateLimiter { inner: RateLimiterInner::TokenBucket(TokenBucketLimiter::new(rps, burst)) }
    }

    /// A limiter with a sliding window for each key: `rps * window_secs`
    /// requests in each window of `window_secs` seconds.
    ///
    /// A window lasts one second at least; its length in nanoseconds and
    /// the limit must each fit 64 bits.
    pub fn new_sliding_window(rps: u64, window_secs: u64) -> (l: RateLimiter)
        requires
            window_secs >= 1,
            window_secs * NANOS_PER_SEC <= u64::MAX,
            rps * window_secs <= u64::MAX,
        ensures
            l.wf(),
            l.inner matches RateLimiterInner::SlidingWindow(s) && s.window_secs() == window_secs
                && s.limit() == rps * window_secs && s.windows() == Map::<
                Seq<char>,
                SlidingWindowState,
            >::empty(),
    {
        RateLimiter {
            inner: RateLimiterInner::SlidingWindow(SlidingWindowLimiter::new(rps, window_secs)),
        }
    }

    /// A limiter with a sliding window for each key, where the sizes allow
    /// one: a window of one second at least, whose length in nanoseconds
    /// and whose limit each fit 64 bits.
    pub fn try_new_sliding_window(rps: u64, window_secs: u64) -> (r: Option<RateLimiter>)
        ensures
            r is Some <==> window_secs >= 1 && window_secs * NANOS_PER_SEC <= u64::MAX && rps
                * window_secs <= u64::MAX,
            r matches Some(l) ==> l.wf() && (l.inner matches RateLimiterInner::SlidingWindow(s)
                && s.window_secs() == window_secs && s.limit() == rps * window_secs),
    {
        if window_secs < 1 {
            return None;
        }
        if window_secs.checked_mul(NANOS_PER_SEC).is_none() {
            return None;
        }
        if rps.checked_mul(window_secs).is_none() {
            return None;
        }
        Some(RateLimiter::new_sliding_window(rps, window_secs))
    }

    /// Whether a request for `key` at `now` is admitted; the state of the
    /// key moves on by one request.
    pub fn check_at(&mut self, key: &str, now: u64) -> (admitted: bool)
        requires
            old(self).wf(),
        ensures
            final(self).wf(),
            admitted == old(self).admits(key@, now),
            old(self).steps_to(*final(self), key@, now),
    {
        match &mut self.inner {
            RateLimiterInner::TokenBucket(limiter) => limiter.check_at(key, now),
            RateLimiterInner::SlidingWindow(limiter) => limiter.check_at(key, now),
        }
    }

    /// Whether a request for `key` is admitted now: the answer, and the
    /// state of the key afterwards, are those of [`Self::check_at`] at some
    /// reading of the clock.
    pub fn check(&mut self, key: &str) -> (admitted: bool)
        requires
            old(self).wf(),
        ensures
            final(self).wf(),
            exists|now: u64|
                #![trigger old(self).steps_to(*final(self), key@, now)]
                admitted == old(self).admits(key@, now) && old(self).steps_to(
                    *final(self),
                    key@,
                    now,
                ),
    {
        let ghost before = *self;
        let admitted = match &mut self.inner {
            RateLimiterInner::TokenBucket(limiter) => {
                let ghost buckets = *limiter;
                let admitted = limiter.check(key);
                proof {
                    let now = choose|now: u64|
                        #![trigger buckets.bucket_for(key@, now)]
                        admitted == buckets.bucket_for(key@, now).admits(now) && limiter.buckets()
                            == buckets.buckets().insert(
                            key@,
                            buckets.bucket_for(key@, now).after(now),
                        );
                    assert(before.inner == RateLimiterInner::TokenBucket(buckets));
                    assert(admitted == before.admits(key@, now));
                    assert(before.steps_to(
                        RateLimiter { inner: RateLimiterInner::TokenBucket(*limiter) },
                        key@,
                        now,
                    ));
                }
                admitted
            },
            RateLimiterInner::SlidingWindow(limiter) => {
                let ghost windows = *limiter;
                let admitted = limiter.check(key);
                proof {
                    let now = choose|now: u64|
                        #![trigger windows.window_for(key@, now)]
                        admitted == windows.window_for(key@, now).admits(now) && limiter.windows()
                            == windows.windows().insert(
                            key@,
                            windows.window_for(key@, now).after(now),
                        );
                    assert(before.inner == RateLimiterInner::SlidingWindow(windows));
                    assert(admitted == before.admits(key@, now));
                    assert(before.steps_to(
                        RateLimiter { inner: RateLimiterInner::SlidingWindow(*limiter) },
                        key@,
                        now,
                    ));
                }
                admitted
            },
        };
        admitted
    }

    /// Drops the entries that have not been used for long at `now`: a bucket
    /// for five minutes, a window for twice its length.
    pub fn cleanup_at(&mut self, now: u64)
        requires
            old(self).wf(),
        ensures
            final(self).wf(),
            old(self).cleans_to(*final(self), now),
            old(self).shrinks_to(*final(self)),
    {
        match &mut self.inner {
            RateLimiterInner::TokenBucket(limiter) => limiter.cleanup_at(now),
            RateLimiterInner::SlidingWindow(limiter) => limiter.cleanup_at(now),
        }
    }

    /// The number of keys that the limiter keeps state for.
    pub fn len(&self) -> (n: usize)
        ensures
            n == (match self.inner {
                RateLimiterInner::TokenBucket(l) => l.buckets().dom().len(),
                RateLimiterInner::SlidingWindow(l) => l.windows().dom().len(),
            }),
    {
        match &self.inner {
            RateLimiterInner::TokenBucket(limiter) => limiter.len(),
            RateLimiterInner::SlidingWindow(limiter) => limiter.len(),
        }
    }

    /// Drops the entries that have not been used for long: a bucket for five
    /// minutes, a window for twice its length. What stays is what is fresh
    /// at some reading of the clock.
    pub fn cleanup(&mut self)
        requires
            old(self).wf(),
        ensures
            final(self).wf(),
            exists|now: u64| old(self).cleans_to(*final(self), now),
            old(self).shrinks_to(*final(self)),
    {
        let ghost before = *self;
        match &mut self.inner {
            RateLimiterInner::TokenBucket(limiter) => {
                let ghost buckets = *limiter;
                limiter.cleanup();
                proof {
                    let now = choose|now: u64|
                        fresh_buckets(buckets.buckets(), limiter.buckets(), now);
                    assert(before.cleans_to(
                        RateLimiter { inner: RateLimiterInner::TokenBucket(*limiter) },
                        now,
                    ));
                }
            },
            RateLimiterInner::SlidingWindow(limiter) => {
                let ghost windows = *limiter;
                limiter.cleanup();
                proof {
                    let now = choose|now: u64|
                        fresh_windows(windows.windows(), limiter.windows(), now);
                    assert(before.cleans_to(
                        RateLimiter { inner: RateLimiterInner::SlidingWindow(*limiter) },
                        now,
                    ));
                }
            },
        }
    }
}

} // verus!
