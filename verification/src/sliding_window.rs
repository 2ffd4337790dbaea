//! The sliding-window counter: each key has a count for the current window
//! and one for the window before, and a request is admitted while their
//! blend stays under the limit.
//!
//! Time is a reading of a monotonic clock in nanoseconds.

use crate::clock::{age, Clock, NANOS_PER_SEC};
use dashmap::DashMap;
use vstd::prelude::*;

verus! {

/// The counters of one key.
#[derive(Debug, Clone, Copy, PartialEq, Eq, Structural)]
pub struct SlidingWindowState {
    /// Requests admitted in the current window.
    pub current_count: u64,
    /// Requests admitted in the window before.
    pub previous_count: u64,
    /// When the current window began.
    pub window_start: u64,
    /// The length of a window in seconds.
    pub window_secs: u64,
    /// The most requests admitted in one window.
    pub limit: u64,
}

impl SlidingWindowState {
    /// The length of a window in nanoseconds.
    pub open spec fn window_nanos(&self) -> int {
        self.window_secs * NANOS_PER_SEC
    }

    /// A window lasts a second at least and fits the clock, and neither
    /// count is above the limit.
    pub open spec fn wf(&self) -> bool {
        &&& self.window_secs >= 1
        &&& self.window_nanos() <= u64::MAX
        &&& self.current_count <= self.limit
        &&& self.previous_count <= self.limit
    }

    /// The number of whole windows that have passed at `now` since the
    /// current one began.
    pub open spec fn rotations(&self, now: u64) -> int {
        age(now, self.window_start) / self.window_nanos()
    }

    /// The counters brought up to `now`: after one whole window the current
    /// count has become the previous one, after two or more both are zero,
    /// and the window that holds `now` is the current one.
    pub open spec fn rotated(&self, now: u64) -> SlidingWindowState {
        let k = self.rotations(now);
        SlidingWindowState {
            current_count: if k == 0 {
                self.current_count
            } else {
                0
            },
            previous_count: if k == 0 {
                self.previous_count
            } else if k == 1 {
                self.current_count
            } else {
                0
            },
            window_start: (self.window_start + k * self.window_nanos()) as u64,
            window_secs: self.window_secs,
            limit: self.limit,
        }
    }

    /// A request at `now` is admitted: the current count, and the previous
    /// count weighted by the share of the current window that is still to
    /// come, are together below the limit.
    pub open spec fn admits(&self, now: u64) -> bool {
        let r = self.rotated(now);
        let w = self.window_nanos();
        r.previous_count * (w - age(now, r.window_start)) + r.current_count * w < r.limit * w
    }

    /// The counters after a request at `now`.
    pub open spec fn after(&self, now: u64) -> SlidingWindowState {
        let r = self.rotated(now);
        if self.admits(now) {
            SlidingWindowState { current_count: (r.current_count + 1) as u64, ..r }
        } else {
            r
        }
    }

    /// The counters are fresh at `now`: their window began less than two
    /// windows before.
    pub open spec fn is_fresh(&self, now: u64) -> bool {
        age(now, self.window_start) < 2 * self.window_nanos()
    }

    /// Counters for a window that begins at `now`.
    pub fn starting_at(window_secs: u64, limit: u64, now: u64) -> (s: SlidingWindowState)
        ensures
            s == (SlidingWindowState {
                current_count: 0,
                previous_count: 0,
                window_start: now,
                window_secs,
                limit,
            }),
    {
        SlidingWindowState { current_count: 0, previous_count: 0, window_start: now, window_secs, limit }
    }

    /// Brings the counters up to `now` and counts one request, if it is
    /// admitted.
    pub fn check_at(&mut self, now: u64) -> (admitted: bool)
        requires
            old(self).wf(),
        ensures
            admitted == old(self).admits(now),
            *final(self) == old(self).after(now),
            final(self).wf(),
            age(now, final(self).window_start) < final(self).window_nanos(),
    {
        let w: u64 = self.window_secs * NANOS_PER_SEC;
        let ghost start0 = self.window_start;
        let ghost k0 = old(self).rotations(now);
        let ghost mut j: int = 0;
        proof {
            vstd::arithmetic::div_mod::lemma_fundamental_div_mod(age(now, start0), w as int);
            vstd::arithmetic::div_mod::lemma_div_pos_is_pos(age(now, start0), w as int);
            assert(0 * (w as int) == 0);
        }
        while now >= self.window_start && now - self.window_start >= w
            invariant
                w == old(self).window_nanos(),
                w >= 1,
                self.window_secs == old(self).window_secs,
                self.limit == old(self).limit,
                start0 == old(self).window_start,
                k0 == age(now, start0) / (w as int),
                0 <= j <= k0,
                j * w <= age(now, start0),
                self.window_start == start0 + j * w,
                j > 0 ==> now >= start0,
                self.current_count == (if j == 0 {
                    old(self).current_count
                } else {
                    0
                }),
                self.previous_count == (if j == 0 {
                    old(self).previous_count
                } else if j == 1 {
                    old(self).current_count
                } else {
                    0
                }),
            decreases k0 - j,
        {
            proof {
                let d = age(now, start0);
                assert(d - j * w >= w);
                assert((j + 1) * w == j * w + w) by (nonlinear_arith);
                assert(j + 1 <= k0) by {
                    vstd::arithmetic::div_mod::lemma_fundamental_div_mod(d, w as int);
                    vstd::arithmetic::div_mod::lemma_mod_bound(d, w as int);
                    assert(d == (w as int) * k0 + d % (w as int));
                    assert((j + 1) * w <= d);
                    if j + 1 > k0 {
                        assert((j + 1) * w >= (k0 + 1) * w) by (nonlinear_arith)
                            requires
                                j + 1 >= k0 + 1,
                                w >= 1,
                        ;
                        assert((k0 + 1) * w == (w as int) * k0 + w) by (nonlinear_arith);
                    }
                }
                j = j + 1;
            }
            self.previous_count = self.current_count;
            self.current_count = 0;
            self.window_start = self.window_start + w;
        }
        let elapsed: u64 = now.saturating_sub(self.window_start);
        proof {
            let d = age(now, start0);
            if j == 0 && now < start0 {
                assert(d == 0);
                assert(k0 == 0) by {
                    vstd::arithmetic::div_mod::lemma_div_basics(w as int);
                }
            } else {
                assert(d == j * w + elapsed);
                assert(j == k0) by {
                    vstd::arithmetic::div_mod::lemma_fundamental_div_mod_converse(
                        d,
                        w as int,
                        j,
                        elapsed as int,
                    );
                }
            }
            assert(*self == old(self).rotated(now));
            assert(elapsed == age(now, self.window_start));
        }
        if self.current_count >= self.limit {
            proof {
                let r = old(self).rotated(now);
                assert(r.previous_count * (w - elapsed) >= 0) by (nonlinear_arith)
                    requires
                        r.previous_count >= 0,
                        w - elapsed >= 0,
                ;
                assert(r.current_count * w >= r.limit * w) by (nonlinear_arith)
                    requires
                        r.current_count >= r.limit,
                        w >= 1,
                ;
            }
            return false;
        }
        let room: u64 = self.limit - self.current_count;
        assert(self.previous_count * (w - elapsed) <= u128::MAX) by (nonlinear_arith)
            requires
                self.previous_count <= u64::MAX,
                0 <= w - elapsed <= u64::MAX,
        ;
        assert(room * w <= u128::MAX) by (nonlinear_arith)
            requires
                room <= u64::MAX,
                w <= u64::MAX,
        ;
        let weighted: u128 = (self.previous_count as u128) * ((w - elapsed) as u128);
        let allowance: u128 = (room as u128) * (w as u128);
        proof {
            let r = old(self).rotated(now);
            assert((r.limit - r.current_count) * w == r.limit * w - r.current_count * w)
                by (nonlinear_arith);
        }
        if weighted < allowance {
            self.current_count = self.current_count + 1;
            true
        } else {
            false
        }
    }

    /// Whether the window of the counters began less than two windows
    /// before `now`.
    pub fn used_recently(&self, now: u64) -> (r: bool)
        ensures
            r == self.is_fresh(now),
    {
        let idle: u128 = now.saturating_sub(self.window_start) as u128;
        assert(2 * (self.window_secs * NANOS_PER_SEC) <= u128::MAX) by (nonlinear_arith)
            requires
                self.window_secs <= u64::MAX,
                NANOS_PER_SEC == 1_000_000_000,
        ;
        idle < 2 * ((self.window_secs as u128) * (NANOS_PER_SEC as u128))
    }
}

/// No window ever counts more admitted requests than the limit: a request
/// is admitted only while the count of its window is below the limit, and
/// the counters stay well formed.
pub proof fn lemma_window_never_exceeds_limit(s: SlidingWindowState, now: u64)
    requires
        s.wf(),
    ensures
        s.after(now).wf(),
        s.after(now).current_count <= s.limit,
        s.admits(now) ==> s.rotated(now).current_count < s.limit,
        s.admits(now) ==> s.after(now).current_count == s.rotated(now).current_count + 1,
        !s.admits(now) ==> s.after(now).current_count == s.rotated(now).current_count,
{
    let r = s.rotated(now);
    let w = s.window_nanos();
    let e = age(now, r.window_start);
    let k = s.rotations(now);
    let d = age(now, s.window_start);
    vstd::arithmetic::div_mod::lemma_fundamental_div_mod(d, w);
    vstd::arithmetic::div_mod::lemma_mod_bound(d, w);
    vstd::arithmetic::div_mod::lemma_div_pos_is_pos(d, w);
    assert(w * k <= d);
    assert(k * w == w * k) by (nonlinear_arith);
    assert(s.window_start + k * w <= u64::MAX);
    if now >= s.window_start {
        assert(e == d - k * w);
    } else {
        assert(d == 0);
        vstd::arithmetic::div_mod::lemma_div_basics(w);
        assert(k == 0);
        assert(0 * w == 0);
    }
    assert(0 <= e <= w);
    if s.admits(now) {
        if r.current_count >= r.limit {
            assert(r.previous_count * (w - e) >= 0) by (nonlinear_arith)
                requires
                    r.previous_count >= 0,
                    w - e >= 0,
            ;
            assert(r.current_count * w >= r.limit * w) by (nonlinear_arith)
                requires
                    r.current_count >= r.limit,
                    w >= 1,
            ;
        }
    }
}

/// The counters after requests at the times of `times`, one after the
/// other.
pub open spec fn after_trace(s: SlidingWindowState, times: Seq<u64>) -> SlidingWindowState
    decreases times.len(),
{
    if times.len() == 0 {
        s
    } else {
        after_trace(s, times.drop_last()).after(times.last())
    }
}

/// The number of the requests at `times` that are admitted.
pub open spec fn admitted_in(s: SlidingWindowState, times: Seq<u64>) -> nat
    decreases times.len(),
{
    if times.len() == 0 {
        0
    } else {
        admitted_in(s, times.drop_last()) + (if after_trace(s, times.drop_last()).admits(
            times.last(),
        ) {
            1nat
        } else {
            0nat
        })
    }
}

/// Every one of `times` lies in the window that is current for `s`, or
/// before it.
pub open spec fn within_window(s: SlidingWindowState, times: Seq<u64>) -> bool {
    forall|i: int| 0 <= i < times.len() ==> #[trigger] times[i] < s.window_start + s.window_nanos()
}

/// Within one window no more requests are admitted than the limit: the
/// requests admitted in the window so far and those admitted of any further
/// requests in the same window are together no more than the limit.
pub proof fn lemma_one_window_admits_at_most_limit(s: SlidingWindowState, times: Seq<u64>)
    requires
        s.wf(),
        within_window(s, times),
    ensures
        after_trace(s, times).wf(),
        after_trace(s, times).window_start == s.window_start,
        after_trace(s, times).window_secs == s.window_secs,
        after_trace(s, times).limit == s.limit,
        after_trace(s, times).current_count == s.current_count + admitted_in(s, times),
        s.current_count + admitted_in(s, times) <= s.limit,
    decreases times.len(),
{
    if times.len() > 0 {
        let earlier = times.drop_last();
        assert forall|i: int| 0 <= i < earlier.len() implies #[trigger] earlier[i] < s.window_start
            + s.window_nanos() by {
            assert(earlier[i] == times[i]);
        }
        lemma_one_window_admits_at_most_limit(s, earlier);
        let before = after_trace(s, earlier);
        let now = times.last();
        assert(now == times[times.len() - 1]);
        let w = before.window_nanos();
        assert(before.rotations(now) == 0) by {
            vstd::arithmetic::div_mod::lemma_basic_div(age(now, before.window_start), w);
        }
        assert(0 * w == 0);
        assert(before.rotated(now) == before);
        lemma_window_never_exceeds_limit(before, now);
    }
}

/// The concurrent map that holds the counters.
pub type WindowMap = DashMap<String, SlidingWindowState>;

/// The counters that a map holds, by key.
pub uninterp spec fn windows_of(m: WindowMap) -> Map<Seq<char>, SlidingWindowState>;

/// `DashMap::new`: a map that holds nothing.
#[verifier::external_body]
fn windows_new() -> (fresh: WindowMap)
    ensures
        windows_of(fresh) == (Map::<Seq<char>, SlidingWindowState>::empty()),
{
    DashMap::new()
}

/// `DashMap::remove`: hands out what the map held under `key`, if anything,
/// and no longer holds it; every other entry stays.
#[verifier::external_body]
fn windows_take(m: &mut WindowMap, key: &str) -> (r: Option<SlidingWindowState>)
    ensures
        windows_of(*final(m)) == windows_of(*old(m)).remove(key@),
        r == (if windows_of(*old(m)).contains_key(key@) {
            Some(windows_of(*old(m))[key@])
        } else {
            None
        }),
{
    match m.remove(key) {
        Some((_, state)) => Some(state),
        None => None,
    }
}

/// `DashMap::insert`: the map holds `state` under `key` afterwards, and
/// under every other key what it held before.
#[verifier::external_body]
fn windows_put(m: &mut WindowMap, key: &str, state: SlidingWindowState)
    ensures
        windows_of(*final(m)) == windows_of(*old(m)).insert(key@, state),
{
    m.insert(key.to_string(), state);
}

/// `DashMap::retain`: the counters that are fresh at `now` stay as they
/// are, the others leave.
#[verifier::external_body]
fn windows_retain_fresh(m: &mut WindowMap, now: u64)
    ensures
        forall|k: Seq<char>| #[trigger]
            windows_of(*final(m)).contains_key(k) <==> windows_of(*old(m)).contains_key(k)
                && windows_of(*old(m))[k].is_fresh(now),
        forall|k: Seq<char>| #[trigger]
            windows_of(*final(m)).contains_key(k) ==> windows_of(*final(m))[k] == windows_of(*old(m))[k],
{
    m.retain(|_, state| state.used_recently(now));
}

/// `DashMap::len`: the number of entries.
#[verifier::external_body]
fn windows_len(m: &WindowMap) -> (n: usize)
    ensures
        n == windows_of(*m).dom().len(),
{
    m.len()
}

/// `after` holds the counters of `before` that are fresh at `now`, each as
/// they were, and nothing else.
pub open spec fn fresh_windows(
    before: Map<Seq<char>, SlidingWindowState>,
    after: Map<Seq<char>, SlidingWindowState>,
    now: u64,
) -> bool {
    &&& forall|k: Seq<char>| #[trigger]
        after.contains_key(k) <==> before.contains_key(k) && before[k].is_fresh(now)
    &&& forall|k: Seq<char>| #[trigger] after.contains_key(k) ==> after[k] == before[k]
}

/// A rate limiter with one sliding window for each key.
pub struct SlidingWindowLimiter {
    windows: WindowMap,
    window_secs: u64,
    limit: u64,
    clock: Clock,
}

impl SlidingWindowLimiter {
    /// The counters held, by key.
    pub closed spec fn windows(&self) -> Map<Seq<char>, SlidingWindowState> {
        windows_of(self.windows)
    }

    /// The length of a window in seconds.
    pub closed spec fn window_secs(&self) -> u64 {
        self.window_secs
    }

    /// The most requests admitted in one window.
    pub closed spec fn limit(&self) -> u64 {
        self.limit
    }

    /// A window lasts a second at least and fits the clock, and all the
    /// counters held are well formed.
    pub open spec fn wf(&self) -> bool {
        &&& self.window_secs() >= 1
        &&& self.window_secs() * NANOS_PER_SEC <= u64::MAX
        &&& forall|k: Seq<char>| #[trigger]
            self.windows().contains_key(k) ==> self.windows()[k].wf()
    }

    /// The counters that a request for `key` at `now` finds: those held, or
    /// new ones for a window that begins at `now`.
    pub open spec fn window_for(&self, key: Seq<char>, now: u64) -> SlidingWindowState {
        if self.windows().contains_key(key) {
            self.windows()[key]
        } else {
            SlidingWindowState {
                current_count: 0,
                previous_count: 0,
                window_start: now,
                window_secs: self.window_secs(),
                limit: self.limit(),
            }
        }
    }

    /// A limiter that admits `rps * window_secs` requests in each window of
    /// `window_secs` seconds, for each key.
    ///
    /// A window lasts one second at least; its length in nanoseconds and
    /// the limit must each fit 64 bits.
    pub fn new(rps: u64, window_secs: u64) -> (l: SlidingWindowLimiter)
        requires
            window_secs >= 1,
            window_secs * NANOS_PER_SEC <= u64::MAX,
            rps * window_secs <= u64::MAX,
        ensures
            l.wf(),
            l.window_secs() == window_secs,
            l.limit() == rps * window_secs,
            l.windows() == Map::<Seq<char>, SlidingWindowState>::empty(),
    {
        SlidingWindowLimiter {
            windows: windows_new(),
            window_secs,
            limit: rps * window_secs,
            clock: Clock::new(),
        }
    }

    /// Whether a request for `key` at `now` is admitted. The counters of the
    /// key are made if there are none, brought up to `now`, and count the
    /// request if it is admitted.
    pub fn check_at(&mut self, key: &str, now: u64) -> (admitted: bool)
        requires
            old(self).wf(),
        ensures
            final(self).wf(),
            final(self).window_secs() == old(self).window_secs(),
            final(self).limit() == old(self).limit(),
            admitted == old(self).window_for(key@, now).admits(now),
            final(self).windows() == old(self).windows().insert(
                key@,
                old(self).window_for(key@, now).after(now),
            ),
    {
        let mut state = match windows_take(&mut self.windows, key) {
            Some(s) => s,
            None => SlidingWindowState::starting_at(self.window_secs, self.limit, now),
        };
        proof {
            if old(self).windows().contains_key(key@) {
                assert(old(self).windows()[key@].wf());
            }
        }
        let admitted = state.check_at(now);
        windows_put(&mut self.windows, key, state);
        proof {
            assert(final(self).windows() =~= old(self).windows().insert(
                key@,
                old(self).window_for(key@, now).after(now),
            ));
            assert forall|k: Seq<char>| #[trigger]
                final(self).windows().contains_key(k) implies final(self).windows()[k].wf() by {
                if k != key@ {
                    assert(old(self).windows().contains_key(k));
                }
            }
        }
        admitted
    }

    /// Whether a request for `key` is admitted now: the answer, and the
    /// counters of the key afterwards, are those of [`Self::check_at`] at
    /// some reading of the clock. No other counters have changed.
    pub fn check(&mut self, key: &str) -> (admitted: bool)
        requires
            old(self).wf(),
        ensures
            final(self).wf(),
            final(self).window_secs() == old(self).window_secs(),
            final(self).limit() == old(self).limit(),
            exists|now: u64|
                #![trigger old(self).window_for(key@, now)]
                admitted == old(self).window_for(key@, now).admits(now) && final(self).windows()
                    == old(self).windows().insert(key@, old(self).window_for(key@, now).after(now)),
            final(self).windows().dom() == old(self).windows().dom().insert(key@),
            forall|k: Seq<char>|
                k != key@ && old(self).windows().contains_key(k) ==> final(self).windows()[k]
                    == old(self).windows()[k],
    {
        let now = self.clock.now_nanos();
        self.check_at(key, now)
    }

    /// The number of keys that have counters.
    pub fn len(&self) -> (n: usize)
        ensures
            n == self.windows().dom().len(),
    {
        windows_len(&self.windows)
    }

    /// Drops the counters whose window began two windows or more before
    /// `now`.
    pub fn cleanup_at(&mut self, now: u64)
        requires
            old(self).wf(),
        ensures
            final(self).wf(),
            final(self).window_secs() == old(self).window_secs(),
            final(self).limit() == old(self).limit(),
            forall|k: Seq<char>| #[trigger]
                final(self).windows().contains_key(k) <==> old(self).windows().contains_key(k)
                    && old(self).windows()[k].is_fresh(now),
            forall|k: Seq<char>| #[trigger]
                final(self).windows().contains_key(k) ==> final(self).windows()[k] == old(self).windows()[k],
    {
        windows_retain_fresh(&mut self.windows, now);
        proof {
            assert forall|k: Seq<char>| #[trigger]
                final(self).windows().contains_key(k) implies final(self).windows()[k].wf() by {
                assert(old(self).windows().contains_key(k));
            }
        }
    }

    /// Drops the counters whose window began two windows or more ago: what
    /// stays is what is fresh at some reading of the clock. No counters are
    /// added and none that stay are changed.
    pub fn cleanup(&mut self)
        requires
            old(self).wf(),
        ensures
            final(self).wf(),
            final(self).window_secs() == old(self).window_secs(),
            final(self).limit() == old(self).limit(),
            exists|now: u64| fresh_windows(old(self).windows(), final(self).windows(), now),
            forall|k: Seq<char>| #[trigger]
                final(self).windows().contains_key(k) ==> old(self).windows().contains_key(k)
                    && final(self).windows()[k] == old(self).windows()[k],
    {
        let now = self.clock.now_nanos();
        self.cleanup_at(now);
        proof {
            assert(fresh_windows(old(self).windows(), self.windows(), now));
        }
    }
}

} // verus!
