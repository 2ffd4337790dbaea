//! The token bucket: each key has a bucket that fills at a steady rate up to
//! a burst size, and every admitted request takes one token out.
//!
//! Time is a reading of a monotonic clock in nanoseconds. Tokens are counted
//! in billionths, so that the refill over any number of nanoseconds is
//! exact.

use crate::clock::{age, Clock};
use dashmap::DashMap;
use vstd::prelude::*;

verus! {

/// One token, in billionths.
pub const TOKEN: u128 = 1_000_000_000;

/// The time after which an unused bucket is dropped: five minutes.
pub const IDLE_NANOS: u64 = 300_000_000_000;

/// The bucket of one key.
#[derive(Debug, Clone, Copy, PartialEq, Eq, Structural)]
pub struct TokenBucketState {
    /// Tokens in the bucket, in billionths.
    pub tokens: u128,
    /// When the bucket was last refilled.
    pub last_refill: u64,
    /// Tokens gained each second.
    pub rate: u64,
    /// The most tokens the bucket holds.
    pub burst: u64,
}

impl TokenBucketState {
    /// The bucket holds no more than its burst size.
    pub open spec fn wf(&self) -> bool {
        self.tokens <= self.burst * TOKEN
    }

    /// The tokens in the bucket at `now`, before any is taken: what it held,
    /// and the rate for each second since the last refill, but no more than
    /// the burst size.
    pub open spec fn level_at(&self, now: u64) -> int {
        let filled = self.tokens + age(now, self.last_refill) * self.rate;
        if filled >= self.burst * TOKEN {
            self.burst * TOKEN
        } else {
            filled
        }
    }

    /// A request at `now` is admitted: the bucket holds a whole token.
    pub open spec fn admits(&self, now: u64) -> bool {
        self.level_at(now) >= TOKEN
    }

    /// The bucket after a request at `now`. Its time never goes back.
    pub open spec fn after(&self, now: u64) -> TokenBucketState {
        TokenBucketState {
            tokens: (if self.admits(now) {
                self.level_at(now) - TOKEN
            } else {
                self.level_at(now)
            }) as u128,
            last_refill: if now >= self.last_refill {
                now
            } else {
                self.last_refill
            },
            rate: self.rate,
            burst: self.burst,
        }
    }

    /// The bucket is fresh at `now`: used less than five minutes before.
    pub open spec fn is_fresh(&self, now: u64) -> bool {
        age(now, self.last_refill) < IDLE_NANOS
    }

    /// A full bucket, made at `now`.
    pub fn full(rate: u64, burst: u64, now: u64) -> (s: TokenBucketState)
        ensures
            s.wf(),
            s == (TokenBucketState { tokens: (burst * TOKEN) as u128, last_refill: now, rate, burst }),
    {
        assert(burst * TOKEN <= u128::MAX) by (nonlinear_arith)
            requires
                burst <= u64::MAX,
                TOKEN == 1_000_000_000,
        ;
        TokenBucketState { tokens: (burst as u128) * TOKEN, last_refill: now, rate, burst }
    }

    /// Refills the bucket up to `now` and takes a token for one request, if
    /// there is one.
    pub fn check_at(&mut self, now: u64) -> (admitted: bool)
        ensures
            admitted == old(self).admits(now),
            *final(self) == old(self).after(now),
            final(self).wf(),
            final(self).last_refill >= old(self).last_refill,
    {
        let elapsed: u64 = now.saturating_sub(self.last_refill);
        assert(elapsed * self.rate <= u128::MAX) by (nonlinear_arith)
            requires
                elapsed <= u64::MAX,
                self.rate <= u64::MAX,
        ;
        assert(self.burst * TOKEN <= u128::MAX) by (nonlinear_arith)
            requires
                self.burst <= u64::MAX,
                TOKEN == 1_000_000_000,
        ;
        let gained: u128 = (elapsed as u128) * (self.rate as u128);
        let capacity: u128 = (self.burst as u128) * TOKEN;
        let level: u128 = if self.tokens >= capacity || gained >= capacity - self.tokens {
            capacity
        } else {
            self.tokens + gained
        };
        if now > self.last_refill {
            self.last_refill = now;
        }
        if level >= TOKEN {
            self.tokens = level - TOKEN;
            true
        } else {
            self.tokens = level;
            false
        }
    }

    /// Whether the bucket was used less than five minutes before `now`.
    pub fn used_recently(&self, now: u64) -> (r: bool)
        ensures
            r == self.is_fresh(now),
    {
        now.saturating_sub(self.last_refill) < IDLE_NANOS
    }
}

/// The bucket after `n` requests that all come at `now`.
pub open spec fn after_requests(s: TokenBucketState, now: u64, n: nat) -> TokenBucketState
    decreases n,
{
    if n == 0 {
        s
    } else {
        after_requests(s, now, (n - 1) as nat).after(now)
    }
}

/// Of the requests that reach a new bucket at one moment, the first `burst`
/// are admitted and the next one is refused.
pub proof fn lemma_burst_admits_exactly_burst(rate: u64, burst: u64, now: u64, n: nat)
    requires
        n <= burst,
    ensures
        ({
            let s = TokenBucketState { tokens: (burst * TOKEN) as u128, last_refill: now, rate, burst };
            &&& after_requests(s, now, n).tokens == (burst - n) * TOKEN
            &&& after_requests(s, now, n).last_refill == now
            &&& after_requests(s, now, n).rate == rate
            &&& after_requests(s, now, n).burst == burst
            &&& n < burst ==> after_requests(s, now, n).admits(now)
            &&& n == burst ==> !after_requests(s, now, n).admits(now)
        }),
    decreases n,
{
    let s = TokenBucketState { tokens: (burst * TOKEN) as u128, last_refill: now, rate, burst };
    assert(burst * TOKEN <= u128::MAX) by (nonlinear_arith)
        requires
            burst <= u64::MAX,
            TOKEN == 1_000_000_000,
    ;
    if n > 0 {
        lemma_burst_admits_exactly_burst(rate, burst, now, (n - 1) as nat);
        let before = after_requests(s, now, (n - 1) as nat);
        assert(age(now, before.last_refill) == 0);
        assert(before.level_at(now) == before.tokens) by (nonlinear_arith)
            requires
                before.tokens == (burst - (n - 1)) * TOKEN,
                before.burst == burst,
                n >= 1,
                before.level_at(now) == (if before.tokens + 0 * before.rate >= before.burst * TOKEN {
                    before.burst * TOKEN
                } else {
                    before.tokens + 0 * before.rate
                }),
        ;
        assert((burst - (n - 1)) * TOKEN - TOKEN == (burst - n) * TOKEN) by (nonlinear_arith);
        assert((burst - (n - 1)) * TOKEN >= TOKEN) by (nonlinear_arith)
            requires
                n <= burst,
        ;
    }
    let here = after_requests(s, now, n);
    assert(here.level_at(now) == here.tokens) by (nonlinear_arith)
        requires
            here.tokens == (burst - n) * TOKEN,
            here.burst == burst,
            n <= burst,
            age(now, here.last_refill) == 0,
            here.level_at(now) == (if here.tokens + age(now, here.last_refill) * here.rate
                >= here.burst * TOKEN {
                here.burst * TOKEN
            } else {
                here.tokens + age(now, here.last_refill) * here.rate
            }),
    ;
    if n < burst {
        assert((burst - n) * TOKEN >= TOKEN) by (nonlinear_arith)
            requires
                n < burst,
        ;
    } else {
        assert((burst - n) * TOKEN == 0) by (nonlinear_arith)
            requires
                n == burst,
        ;
    }
}

/// A request is admitted whenever the time since the last one was enough
/// to gain a token: a client that keeps to the rate is never refused.
pub proof fn lemma_paced_request_admitted(s: TokenBucketState, now: u64)
    requires
        s.burst >= 1,
        age(now, s.last_refill) * s.rate >= TOKEN,
    ensures
        s.admits(now),
{
    assert(s.burst * TOKEN >= TOKEN) by (nonlinear_arith)
        requires
            s.burst >= 1,
    ;
}

/// The bucket after requests at the times of `times`, one after the other.
pub open spec fn after_trace(s: TokenBucketState, times: Seq<u64>) -> TokenBucketState
    decreases times.len(),
{
    if times.len() == 0 {
        s
    } else {
        after_trace(s, times.drop_last()).after(times.last())
    }
}

/// The requests at `times` keep to the rate of the bucket: time does not
/// go back, and between each request and the one before, as between the
/// first and the last refill of the bucket, there is time enough to gain a
/// token.
pub open spec fn keeps_to_rate(s: TokenBucketState, times: Seq<u64>) -> bool {
    forall|i: int|
        0 <= i < times.len() ==> {
            let before = if i == 0 {
                s.last_refill
            } else {
                times[i - 1]
            };
            #[trigger] times[i] >= before && (times[i] - before) * s.rate >= TOKEN
        }
}

/// Of the requests of a client that keeps to the rate, none is refused.
pub proof fn lemma_steady_client_never_refused(s: TokenBucketState, times: Seq<u64>, i: int)
    requires
        s.burst >= 1,
        keeps_to_rate(s, times),
        0 <= i < times.len(),
    ensures
        after_trace(s, times.take(i)).admits(times[i]),
        after_trace(s, times.take(i)).rate == s.rate,
        after_trace(s, times.take(i)).burst == s.burst,
        after_trace(s, times.take(i)).last_refill == (if i == 0 {
            s.last_refill
        } else {
            times[i - 1]
        }),
    decreases i,
{
    let here = after_trace(s, times.take(i));
    if i == 0 {
        assert(times.take(0) =~= Seq::<u64>::empty());
    } else {
        lemma_steady_client_never_refused(s, times, i - 1);
        assert(times.take(i).drop_last() =~= times.take(i - 1));
        assert(times.take(i).last() == times[i - 1]);
        let before = after_trace(s, times.take(i - 1));
        assert(here == before.after(times[i - 1]));
        assert(times[i - 1] >= before.last_refill) by {
            if i - 1 > 0 {
                assert(times[i - 1] >= times[i - 2]);
            } else {
                assert(times[0] >= s.last_refill);
            }
        }
    }
    assert(times[i] >= here.last_refill && (times[i] - here.last_refill) * s.rate >= TOKEN);
    lemma_paced_request_admitted(here, times[i]);
}

/// The concurrent map that holds the buckets.
pub type BucketMap = DashMap<String, TokenBucketState>;

/// The buckets that a map holds, by key.
pub uninterp spec fn buckets_of(m: BucketMap) -> Map<Seq<char>, TokenBucketState>;

/// `DashMap::new`: a map that holds nothing.
#[verifier::external_body]
fn buckets_new() -> (fresh: BucketMap)
    ensures
        buckets_of(fresh) == (Map::<Seq<char>, TokenBucketState>::empty()),
{
    DashMap::new()
}

/// `DashMap::remove`: hands out what the map held under `key`, if anything,
/// and no longer holds it; every other entry stays.
#[verifier::external_body]
fn buckets_take(m: &mut BucketMap, key: &str) -> (r: Option<TokenBucketState>)
    ensures
        buckets_of(*final(m)) == buckets_of(*old(m)).remove(key@),
        r == (if buckets_of(*old(m)).contains_key(key@) {
            Some(buckets_of(*old(m))[key@])
        } else {
            None
        }),
{
    match m.remove(key) {
        Some((_, state)) => Some(state),
        None => None,
    }
}

/// `DashMap::insert`: the map holds `state` under `key` afterwards, and
/// under every other key what it held before.
#[verifier::external_body]
fn buckets_put(m: &mut BucketMap, key: &str, state: TokenBucketState)
    ensures
        buckets_of(*final(m)) == buckets_of(*old(m)).insert(key@, state),
{
    m.insert(key.to_string(), state);
}

/// `DashMap::retain`: the buckets that are fresh at `now` stay as they are,
/// the others leave.
#[verifier::external_body]
fn buckets_retain_fresh(m: &mut BucketMap, now: u64)
    ensures
        forall|k: Seq<char>| #[trigger]
            buckets_of(*final(m)).contains_key(k) <==> buckets_of(*old(m)).contains_key(k)
                && buckets_of(*old(m))[k].is_fresh(now),
        forall|k: Seq<char>| #[trigger]
            buckets_of(*final(m)).contains_key(k) ==> buckets_of(*final(m))[k] == buckets_of(*old(m))[k],
{
    m.retain(|_, state| state.used_recently(now));
}

/// `DashMap::len`: the number of entries.
#[verifier::external_body]
fn buckets_len(m: &BucketMap) -> (n: usize)
    ensures
        n == buckets_of(*m).dom().len(),
{
    m.len()
}

/// `after` holds the buckets of `before` that are fresh at `now`, each as
/// it was, and nothing else.
pub open spec fn fresh_buckets(
    before: Map<Seq<char>, TokenBucketState>,
    after: Map<Seq<char>, TokenBucketState>,
    now: u64,
) -> bool {
    &&& forall|k: Seq<char>| #[trigger]
        after.contains_key(k) <==> before.contains_key(k) && before[k].is_fresh(now)
    &&& forall|k: Seq<char>| #[trigger] after.contains_key(k) ==> after[k] == before[k]
}

/// A rate limiter with one token bucket for each key.
pub struct TokenBucketLimiter {
    buckets: BucketMap,
    rate: u64,
    burst: u64,
    clock: Clock,
}

impl TokenBucketLimiter {
    /// The buckets held, by key.
    pub closed spec fn buckets(&self) -> Map<Seq<char>, TokenBucketState> {
        buckets_of(self.buckets)
    }

    /// Tokens that a bucket gains each second.
    pub closed spec fn rate(&self) -> u64 {
        self.rate
    }

    /// The most tokens that a bucket holds.
    pub closed spec fn burst(&self) -> u64 {
        self.burst
    }

    /// Every bucket holds no more than its burst size.
    pub open spec fn wf(&self) -> bool {
        forall|k: Seq<char>| #[trigger] self.buckets().contains_key(k) ==> self.buckets()[k].wf()
    }

    /// The bucket that a request for `key` at `now` finds: the one held, or
    /// a full one made at `now`.
    pub open spec fn bucket_for(&self, key: Seq<char>, now: u64) -> TokenBucketState {
        if self.buckets().contains_key(key) {
            self.buckets()[key]
        } else {
            TokenBucketState {
                tokens: (self.burst() * TOKEN) as u128,
                last_refill: now,
                rate: self.rate(),
                burst: self.burst(),
            }
        }
    }

    /// A limiter that admits `rps` requests a second for each key, and
    /// `burst` at once.
    pub fn new(rps: u64, burst: u64) -> (l: TokenBucketLimiter)
        ensures
            l.wf(),
            l.rate() == rps,
            l.burst() == burst,
            l.buckets() == Map::<Seq<char>, TokenBucketState>::empty(),
    {
        TokenBucketLimiter { buckets: buckets_new(), rate: rps, burst, clock: Clock::new() }
    }

    /// Whether a request for `key` at `now` is admitted. The bucket of the
    /// key is made if there is none, refilled, and one token poorer if the
    /// request is admitted.
    pub fn check_at(&mut self, key: &str, now: u64) -> (admitted: bool)
        ensures
            old(self).wf() ==> final(self).wf(),
            final(self).rate() == old(self).rate(),
            final(self).burst() == old(self).burst(),
            admitted == old(self).bucket_for(key@, now).admits(now),
            final(self).buckets() == old(self).buckets().insert(
                key@,
                old(self).bucket_for(key@, now).after(now),
            ),
    {
        let mut state = match buckets_take(&mut self.buckets, key) {
            Some(s) => s,
            None => TokenBucketState::full(self.rate, self.burst, now),
        };
        let admitted = state.check_at(now);
        buckets_put(&mut self.buckets, key, state);
        proof {
            assert(final(self).buckets() =~= old(self).buckets().insert(
                key@,
                old(self).bucket_for(key@, now).after(now),
            ));
            if old(self).wf() {
                assert forall|k: Seq<char>| #[trigger]
                    final(self).buckets().contains_key(k) implies final(self).buckets()[k].wf() by {
                    if k != key@ {
                        assert(old(self).buckets().contains_key(k));
                    }
                }
            }
        }
        admitted
    }

    /// Whether a request for `key` is admitted now: the answer, and the
    /// bucket of the key afterwards, are those of [`Self::check_at`] at some
    /// reading of the clock. No other bucket has changed.
    pub fn check(&mut self, key: &str) -> (admitted: bool)
        ensures
            old(self).wf() ==> final(self).wf(),
            final(self).rate() == old(self).rate(),
            final(self).burst() == old(self).burst(),
            exists|now: u64|
                #![trigger old(self).bucket_for(key@, now)]
                admitted == old(self).bucket_for(key@, now).admits(now) && final(self).buckets()
                    == old(self).buckets().insert(key@, old(self).bucket_for(key@, now).after(now)),
            final(self).buckets().dom() == old(self).buckets().dom().insert(key@),
            forall|k: Seq<char>|
                k != key@ && old(self).buckets().contains_key(k) ==> final(self).buckets()[k]
                    == old(self).buckets()[k],
    {
        let now = self.clock.now_nanos();
        self.check_at(key, now)
    }

    /// The number of keys that have a bucket.
    pub fn len(&self) -> (n: usize)
        ensures
            n == self.buckets().dom().len(),
    {
        buckets_len(&self.buckets)
    }

    /// Drops the buckets that were not used in the five minutes before
    /// `now`.
    pub fn cleanup_at(&mut self, now: u64)
        ensures
            old(self).wf() ==> final(self).wf(),
            final(self).rate() == old(self).rate(),
            final(self).burst() == old(self).burst(),
            forall|k: Seq<char>| #[trigger]
                final(self).buckets().contains_key(k) <==> old(self).buckets().contains_key(k)
                    && old(self).buckets()[k].is_fresh(now),
            forall|k: Seq<char>| #[trigger]
                final(self).buckets().contains_key(k) ==> final(self).buckets()[k] == old(self).buckets()[k],
    {
        buckets_retain_fresh(&mut self.buckets, now);
        proof {
            if old(self).wf() {
                assert forall|k: Seq<char>| #[trigger]
                    final(self).buckets().contains_key(k) implies final(self).buckets()[k].wf() by {
                    assert(old(self).buckets().contains_key(k));
                }
            }
        }
    }

    /// Drops the buckets that were not used in the last five minutes: what
    /// stays is what is fresh at some reading of the clock. No bucket is
    /// added and none that stays is changed.
    pub fn cleanup(&mut self)
        ensures
            old(self).wf() ==> final(self).wf(),
            final(self).rate() == old(self).rate(),
            final(self).burst() == old(self).burst(),
            exists|now: u64| fresh_buckets(old(self).buckets(), final(self).buckets(), now),
            forall|k: Seq<char>| #[trigger]
                final(self).buckets().contains_key(k) ==> old(self).buckets().contains_key(k)
                    && final(self).buckets()[k] == old(self).buckets()[k],
    {
        let now = self.clock.now_nanos();
        self.cleanup_at(now);
        proof {
            assert(fresh_buckets(old(self).buckets(), self.buckets(), now));
        }
    }
}

} // verus!
