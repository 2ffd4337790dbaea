//! Bot detection: classification, scoring and the challenge, tied together
//! with one session for each client address.

use crate::config::{BotDetectionConfig, BotDetectionMode};
use crate::clock::{unix_now_secs, Clock};
use crate::fingerprint::{
    compute_fingerprint, find_header, header_value, joined_names, standard_accept,
};
use crate::digest::sha256_hex_of;
use crate::js_challenge::{
    challenge_cookie_valid, challenge_page, cookie_in_header, extract_challenge_cookie,
    generate_challenge_at, verify_challenge_cookie_at, CHALLENGE_COOKIE_PREFIX,
};
use crate::known_bots::{classify_user_agent, pattern_of, BotPattern};
use crate::score::{bot_score_of, compute_bot_score};
use crate::text::string_of;
use dashmap::DashMap;
use vstd::prelude::*;

verus! {

/// What the detector says of one request.
#[derive(Debug)]
pub enum BotCheckResult {
    /// The request goes on.
    Allow,
    /// The request is refused.
    Block,
    /// The client gets this challenge page instead of an answer.
    Challenge(String),
    /// The request goes on; the score (in thousandths) is recorded.
    Detect { score: u32 },
}

/// What is remembered of a client address.
#[derive(Debug, Clone)]
pub struct BotSession {
    /// Reading of the monotonic clock at the last request, in nanoseconds.
    pub last_seen: u64,
    /// The header-order hash of the last request.
    pub fingerprint_hash: String,
}

impl BotSession {
    /// The session was last seen less than `max_age_nanos` before `now`; one
    /// seen after `now` counts as seen at `now`.
    pub open spec fn is_fresh(&self, now: u64, max_age_nanos: u64) -> bool {
        crate::clock::age(now, self.last_seen) < max_age_nanos
    }

    /// Whether the session was last seen less than `max_age_nanos` before
    /// `now`.
    pub fn seen_within(&self, now: u64, max_age_nanos: u64) -> (r: bool)
        ensures
            r == self.is_fresh(now, max_age_nanos),
    {
        now.saturating_sub(self.last_seen) < max_age_nanos
    }
}

/// The concurrent map that holds the sessions.
pub type SessionMap = DashMap<String, BotSession>;

/// The sessions that a map holds, by client address.
pub uninterp spec fn bot_sessions(m: SessionMap) -> Map<Seq<char>, BotSession>;

/// `DashMap::new`: a map that holds nothing.
#[verifier::external_body]
fn sessions_new() -> (fresh: SessionMap)
    ensures
        bot_sessions(fresh) == (Map::<Seq<char>, BotSession>::empty()),
{
    DashMap::new()
}

/// `DashMap::insert`: the map holds `session` under `key` afterwards, and
/// under every other key what it held before.
#[verifier::external_body]
fn sessions_put(m: &mut SessionMap, key: &str, session: BotSession)
    ensures
        bot_sessions(*final(m)) == bot_sessions(*old(m)).insert(key@, session),
{
    m.insert(key.to_string(), session);
}

/// `DashMap::retain`: the entries that are fresh at `now` stay as they are,
/// the others leave.
#[verifier::external_body]
fn sessions_retain_fresh(m: &mut SessionMap, now: u64, max_age_nanos: u64)
    ensures
        forall|k: Seq<char>| #[trigger]
            bot_sessions(*final(m)).contains_key(k) <==> bot_sessions(*old(m)).contains_key(k)
                && bot_sessions(*old(m))[k].is_fresh(now, max_age_nanos),
        forall|k: Seq<char>| #[trigger]
            bot_sessions(*final(m)).contains_key(k) ==> bot_sessions(*final(m))[k] == bot_sessions(*old(m))[k],
{
    m.retain(|_, session| session.seen_within(now, max_age_nanos));
}

/// `DashMap::len`: the number of entries.
#[verifier::external_body]
fn sessions_len(m: &SessionMap) -> (n: usize)
    ensures
        n == bot_sessions(*m).dom().len(),
{
    m.len()
}

/// `after` holds the sessions of `before` that are fresh at `now`, each as
/// it was, and nothing else.
pub open spec fn fresh_sessions(
    before: Map<Seq<char>, BotSession>,
    after: Map<Seq<char>, BotSession>,
    now: u64,
    max_age_nanos: u64,
) -> bool {
    &&& forall|k: Seq<char>| #[trigger]
        after.contains_key(k) <==> before.contains_key(k) && before[k].is_fresh(now, max_age_nanos)
    &&& forall|k: Seq<char>| #[trigger] after.contains_key(k) ==> after[k] == before[k]
}

/// The outcome of a check, before the challenge page is written.
#[derive(Debug, Clone, Copy, PartialEq, Eq, Structural)]
pub enum BotVerdict {
    Allow,
    Block,
    Challenge,
    Detect,
}

/// The verdict on a request of a classified client.
///
/// A known good bot passes whatever its score. At or above the threshold,
/// `Block` mode refuses; `Challenge` mode lets a client with a valid cookie
/// pass, challenges the others where the challenge is enabled and refuses
/// them where it is not; `Detect` mode records. Below the threshold only
/// `Detect` mode records, the others let pass.
pub open spec fn verdict_of(
    enabled: bool,
    mode: BotDetectionMode,
    challenge_enabled: bool,
    threshold: u32,
    pattern: BotPattern,
    score: u32,
    valid_challenge: bool,
) -> BotVerdict {
    if !enabled {
        BotVerdict::Allow
    } else if pattern == BotPattern::KnownGoodBot {
        BotVerdict::Allow
    } else if score >= threshold {
        match mode {
            BotDetectionMode::Block => BotVerdict::Block,
            BotDetectionMode::Challenge => if valid_challenge {
                BotVerdict::Allow
            } else if challenge_enabled {
                BotVerdict::Challenge
            } else {
                BotVerdict::Block
            },
            BotDetectionMode::Detect => BotVerdict::Detect,
        }
    } else {
        match mode {
            BotDetectionMode::Detect => BotVerdict::Detect,
            _ => BotVerdict::Allow,
        }
    }
}

/// The verdict on a request of a classified client.
pub fn decide(
    enabled: bool,
    mode: BotDetectionMode,
    challenge_enabled: bool,
    threshold: u32,
    pattern: BotPattern,
    score: u32,
    valid_challenge: bool,
) -> (v: BotVerdict)
    ensures
        v == verdict_of(enabled, mode, challenge_enabled, threshold, pattern, score, valid_challenge),
{
    if !enabled {
        return BotVerdict::Allow;
    }
    if pattern == BotPattern::KnownGoodBot {
        return BotVerdict::Allow;
    }
    if score >= threshold {
        match mode {
            BotDetectionMode::Block => BotVerdict::Block,
            BotDetectionMode::Challenge => {
                if valid_challenge {
                    BotVerdict::Allow
                } else if challenge_enabled {
                    BotVerdict::Challenge
                } else {
                    BotVerdict::Block
                }
            },
            BotDetectionMode::Detect => BotVerdict::Detect,
        }
    } else {
        match mode {
            BotDetectionMode::Detect => BotVerdict::Detect,
            _ => BotVerdict::Allow,
        }
    }
}

/// A request carries, at `now`, a challenge cookie that is valid for its
/// client under `config`.
pub open spec fn has_valid_challenge(
    config: BotDetectionConfig,
    ip: Seq<char>,
    cookie_header: Option<Seq<char>>,
    now: u64,
) -> bool {
    match cookie_header {
        Some(header) => match cookie_in_header(header, CHALLENGE_COOKIE_PREFIX@) {
            Some(cookie) => challenge_cookie_valid(
                cookie,
                ip,
                config.js_challenge.secret@,
                config.js_challenge.ttl_secs,
                now,
            ),
            None => false,
        },
        None => false,
    }
}

/// The class of the client that sent these headers.
pub open spec fn request_pattern(config: BotDetectionConfig, headers: Seq<(String, String)>)
    -> BotPattern {
    pattern_of(header_value(headers, "user-agent"@), config.known_bots_allowlist@)
}

/// The score of a request at `now`.
pub open spec fn request_score(
    config: BotDetectionConfig,
    ip: Seq<char>,
    headers: Seq<(String, String)>,
    cookie_header: Option<Seq<char>>,
    now: u64,
) -> int {
    bot_score_of(
        request_pattern(config, headers),
        standard_accept(headers),
        has_valid_challenge(config, ip, cookie_header, now),
    )
}

/// The verdict on a request at `now`.
pub open spec fn request_verdict(
    config: BotDetectionConfig,
    ip: Seq<char>,
    headers: Seq<(String, String)>,
    cookie_header: Option<Seq<char>>,
    now: u64,
) -> BotVerdict {
    verdict_of(
        config.enabled,
        config.mode,
        config.js_challenge.enabled,
        config.score_threshold,
        request_pattern(config, headers),
        request_score(config, ip, headers, cookie_header, now) as u32,
        has_valid_challenge(config, ip, cookie_header, now),
    )
}

/// The result `r` says what the verdict `v` says, with the score and the
/// page that belong to it.
pub open spec fn result_matches(r: BotCheckResult, v: BotVerdict, score: int, page: Seq<char>)
    -> bool {
    match v {
        BotVerdict::Allow => r is Allow,
        BotVerdict::Block => r is Block,
        BotVerdict::Challenge => r matches BotCheckResult::Challenge(html) && html@ == page,
        BotVerdict::Detect => r matches BotCheckResult::Detect { score: s } && s == score,
    }
}

/// A request for which a good-bot rule holds is never refused and never
/// challenged, whatever its score, the mode and the other signals.
pub proof fn lemma_good_bot_always_allowed(
    config: BotDetectionConfig,
    ip: Seq<char>,
    headers: Seq<(String, String)>,
    cookie_header: Option<Seq<char>>,
    now: u64,
)
    requires
        request_pattern(config, headers) == BotPattern::KnownGoodBot,
    ensures
        request_verdict(config, ip, headers, cookie_header, now) == BotVerdict::Allow,
{
}

/// The text of a header that may be absent.
pub open spec fn header_text(header: Option<&str>) -> Option<Seq<char>> {
    match header {
        Some(h) => Some(h@),
        None => None,
    }
}

/// `r` is the answer to a request, and `after` the sessions that follow
/// `before`, at the reading `unix_now` of the wall clock (seconds) and
/// `mono_now` of the monotonic clock (nanoseconds).
///
/// The answer is the verdict on the request, with its score and with the
/// challenge page issued at `unix_now`. With detection off the sessions
/// stay; otherwise the session of the client is one that holds `mono_now`
/// and the header-order hash of the request, and all others stay.
pub open spec fn answers_at(
    config: BotDetectionConfig,
    before: Map<Seq<char>, BotSession>,
    after: Map<Seq<char>, BotSession>,
    ip: Seq<char>,
    headers: Seq<(String, String)>,
    cookie_header: Option<&str>,
    r: BotCheckResult,
    unix_now: u64,
    mono_now: u64,
) -> bool {
    &&& result_matches(
        r,
        request_verdict(config, ip, headers, header_text(cookie_header), unix_now),
        request_score(config, ip, headers, header_text(cookie_header), unix_now),
        challenge_page(ip, config.js_challenge.difficulty, config.js_challenge.secret@, unix_now),
    )
    &&& !config.enabled ==> after == before
    &&& config.enabled ==> {
        &&& after.dom() == before.dom().insert(ip)
        &&& after[ip].last_seen == mono_now
        &&& after[ip].fingerprint_hash@ == sha256_hex_of(joined_names(headers))
        &&& forall|k: Seq<char>| k != ip && before.contains_key(k) ==> after[k] == before[k]
    }
}

/// The bot detection engine.
pub struct BotDetector {
    config: BotDetectionConfig,
    sessions: SessionMap,
    clock: Clock,
}

impl BotDetector {
    /// The configuration the detector was made with.
    pub closed spec fn config(&self) -> BotDetectionConfig {
        self.config
    }

    /// The sessions it holds, by client address.
    pub closed spec fn sessions(&self) -> Map<Seq<char>, BotSession> {
        bot_sessions(self.sessions)
    }

    /// A detector with no session yet.
    pub fn new(config: BotDetectionConfig) -> (d: BotDetector)
        ensures
            d.config() == config,
            d.sessions() == Map::<Seq<char>, BotSession>::empty(),
    {
        BotDetector { config, sessions: sessions_new(), clock: Clock::new() }
    }

    /// Checks a request at the given readings of the wall clock (seconds)
    /// and of the monotonic clock (nanoseconds).
    ///
    /// Where detection is disabled nothing is recorded and the request
    /// passes. Otherwise the session of the client is replaced by one that
    /// holds this request's time and header-order hash, and the result is
    /// the verdict on the request; a challenge page is the one issued at
    /// `unix_now`.
    pub fn check_at(
        &mut self,
        client_ip: &str,
        headers: &[(String, String)],
        method: &str,
        cookie_header: Option<&str>,
        unix_now: u64,
        mono_now: u64,
    ) -> (r: BotCheckResult)
        ensures
            final(self).config() == old(self).config(),
            answers_at(
                old(self).config(),
                old(self).sessions(),
                final(self).sessions(),
                client_ip@,
                headers@,
                cookie_header,
                r,
                unix_now,
                mono_now,
            ),
            result_matches(
                r,
                request_verdict(
                    old(self).config(),
                    client_ip@,
                    headers@,
                    match cookie_header {
                        Some(h) => Some(h@),
                        None => None,
                    },
                    unix_now,
                ),
                request_score(
                    old(self).config(),
                    client_ip@,
                    headers@,
                    match cookie_header {
                        Some(h) => Some(h@),
                        None => None,
                    },
                    unix_now,
                ),
                challenge_page(
                    client_ip@,
                    old(self).config().js_challenge.difficulty,
                    old(self).config().js_challenge.secret@,
                    unix_now,
                ),
            ),
            !old(self).config().enabled ==> final(self).sessions() == old(self).sessions(),
            old(self).config().enabled ==> {
                &&& final(self).sessions().dom() == old(self).sessions().dom().insert(client_ip@)
                &&& final(self).sessions()[client_ip@].last_seen == mono_now
                &&& final(self).sessions()[client_ip@].fingerprint_hash@ == sha256_hex_of(
                    joined_names(headers@),
                )
                &&& forall|k: Seq<char>|
                    k != client_ip@ && old(self).sessions().contains_key(k) ==> final(self).sessions()[k] == old(self).sessions()[k]
            },
    {
        if !self.config.enabled {
            return BotCheckResult::Allow;
        }
        let fp = compute_fingerprint(headers, method);

        let ua_chars = find_header(headers, "user-agent");
        let ua = string_of(ua_chars.as_slice());
        let bot_pattern = classify_user_agent(ua.as_str(), self.config.known_bots_allowlist.as_slice());

        let has_valid_challenge = match cookie_header {
            Some(header) => match extract_challenge_cookie(header) {
                Some(cookie) => verify_challenge_cookie_at(
                    cookie.as_str(),
                    client_ip,
                    self.config.js_challenge.secret.as_str(),
                    self.config.js_challenge.ttl_secs,
                    unix_now,
                ),
                None => false,
            },
            None => false,
        };

        let bot_score = compute_bot_score(&fp, bot_pattern, has_valid_challenge, headers);

        let session = BotSession { last_seen: mono_now, fingerprint_hash: fp.header_order_hash };
        sessions_put(&mut self.sessions, client_ip, session);
        proof {
            assert(final(self).sessions().dom() =~= old(self).sessions().dom().insert(client_ip@));
        }

        let verdict = decide(
            self.config.enabled,
            self.config.mode,
            self.config.js_challenge.enabled,
            self.config.score_threshold,
            bot_pattern,
            bot_score,
            has_valid_challenge,
        );
        match verdict {
            BotVerdict::Allow => BotCheckResult::Allow,
            BotVerdict::Block => BotCheckResult::Block,
            BotVerdict::Challenge => BotCheckResult::Challenge(
                generate_challenge_at(
                    client_ip,
                    self.config.js_challenge.difficulty,
                    self.config.js_challenge.secret.as_str(),
                    unix_now,
                ),
            ),
            BotVerdict::Detect => BotCheckResult::Detect { score: bot_score },
        }
    }

    /// Checks a request now. The result and the sessions afterwards are
    /// those of [`BotDetector::check_at`] at some readings of the two
    /// clocks.
    pub fn check(
        &mut self,
        client_ip: &str,
        headers: &[(String, String)],
        method: &str,
        cookie_header: Option<&str>,
    ) -> (r: BotCheckResult)
        ensures
            final(self).config() == old(self).config(),
            exists|unix_now: u64, mono_now: u64| #[trigger]
                answers_at(
                    old(self).config(),
                    old(self).sessions(),
                    final(self).sessions(),
                    client_ip@,
                    headers@,
                    cookie_header,
                    r,
                    unix_now,
                    mono_now,
                ),
            !old(self).config().enabled ==> r is Allow && final(self).sessions() == old(self).sessions(),
            old(self).config().enabled ==> final(self).sessions().dom() == old(self).sessions().dom().insert(client_ip@),
            request_pattern(old(self).config(), headers@) == BotPattern::KnownGoodBot ==> r is Allow,
    {
        let unix_now = unix_now_secs();
        let mono_now = self.clock.now_nanos();
        self.check_at(client_ip, headers, method, cookie_header, unix_now, mono_now)
    }

    /// Drops the sessions last seen `max_age_nanos` or more before `now`.
    pub fn cleanup_sessions_at(&mut self, max_age_nanos: u64, now: u64)
        ensures
            final(self).config() == old(self).config(),
            forall|k: Seq<char>| #[trigger]
                final(self).sessions().contains_key(k) <==> old(self).sessions().contains_key(k)
                    && old(self).sessions()[k].is_fresh(now, max_age_nanos),
            forall|k: Seq<char>| #[trigger]
                final(self).sessions().contains_key(k) ==> final(self).sessions()[k] == old(self).sessions()[k],
    {
        sessions_retain_fresh(&mut self.sessions, now, max_age_nanos);
    }

    /// Drops the sessions that were last seen `max_age_nanos` or more ago:
    /// what stays is what is fresh at some reading of the clock. No session
    /// is added and none that stays is changed; with a `max_age_nanos` of 0
    /// none stays.
    pub fn cleanup_sessions(&mut self, max_age_nanos: u64)
        ensures
            final(self).config() == old(self).config(),
            exists|now: u64|
                fresh_sessions(old(self).sessions(), final(self).sessions(), now, max_age_nanos),
            max_age_nanos == 0 ==> final(self).sessions() == Map::<Seq<char>, BotSession>::empty(),
            forall|k: Seq<char>| #[trigger]
                final(self).sessions().contains_key(k) ==> old(self).sessions().contains_key(k)
                    && final(self).sessions()[k] == old(self).sessions()[k],
    {
        let now = self.clock.now_nanos();
        self.cleanup_sessions_at(max_age_nanos, now);
        proof {
            assert(fresh_sessions(old(self).sessions(), self.sessions(), now, max_age_nanos));
            if max_age_nanos == 0 {
                assert(self.sessions() =~= Map::<Seq<char>, BotSession>::empty());
            }
        }
    }

    /// The number of sessions.
    pub fn session_count(&self) -> (n: usize)
        ensures
            n == self.sessions().dom().len(),
    {
        sessions_len(&self.sessions)
    }
}

} // verus!
