//! The anti-scraping engine: sessions, honeypot, CAPTCHA and watermark tied
//! together.

use crate::captcha::{
    captcha_cookie_valid, captcha_page, draw_captcha, extract_captcha_cookie, render_captcha_page,
    verify_captcha_cookie_at, CaptchaDraw, CAPTCHA_COOKIE_PREFIX,
};
use crate::clock::{age, unix_now_secs, Clock};
use crate::config::{AntiScrapingConfig, AntiScrapingMode};
use crate::digest::utf8;
use crate::honeypot::{
    closing_tag_at, first_closing_tag, generate_trap_html, inject_trap, is_trap_request, spliced,
    trap_html,
};
use crate::js_challenge::cookie_in_header;
use crate::obfuscation::{has_site, inject_zero_width_chars, watermarked_text};
use crate::session::{path_hash, scraping_score_of, ScrapingSession};
use crate::text::{chars_of, contains_str, has_substring};
use dashmap::DashMap;
use vstd::prelude::*;

verus! {

/// The largest body that is rewritten: 2 MiB.
pub const MAX_BODY_BUFFER: usize = 2097152;

/// What the engine says of one request.
#[derive(Debug)]
pub enum ScrapingCheckResult {
    /// The request goes on.
    Allow,
    /// The request is refused.
    Block,
    /// The client gets this CAPTCHA page instead of an answer.
    Challenge(String),
    /// The request goes on; the score (in thousandths) is recorded.
    Detect { score: u32 },
    /// The request went into the honeypot.
    TrapTriggered,
}

/// The outcome of a check, before the CAPTCHA page is written.
#[derive(Debug, Clone, Copy, PartialEq, Eq, Structural)]
pub enum ScrapingVerdict {
    Allow,
    Block,
    Challenge,
    Detect,
    TrapTriggered,
}

/// The concurrent map that holds the sessions.
pub type ScrapingSessionMap = DashMap<String, ScrapingSession>;

/// The sessions that a map holds, by client address.
pub uninterp spec fn scraping_sessions(m: ScrapingSessionMap) -> Map<Seq<char>, ScrapingSession>;

/// `DashMap::new`: a map that holds nothing.
#[verifier::external_body]
fn sessions_new() -> (fresh: ScrapingSessionMap)
    ensures
        scraping_sessions(fresh) == (Map::<Seq<char>, ScrapingSession>::empty()),
{
    DashMap::new()
}

/// `DashMap::remove`: hands out what the map held under `key`, if anything,
/// and no longer holds it; every other entry stays.
#[verifier::external_body]
fn sessions_take(m: &mut ScrapingSessionMap, key: &str) -> (r: Option<ScrapingSession>)
    ensures
        scraping_sessions(*final(m)) == scraping_sessions(*old(m)).remove(key@),
        r == (if scraping_sessions(*old(m)).contains_key(key@) {
            Some(scraping_sessions(*old(m))[key@])
        } else {
            None
        }),
{
    match m.remove(key) {
        Some((_, session)) => Some(session),
        None => None,
    }
}

/// `DashMap::insert`: the map holds `session` under `key` afterwards, and
/// under every other key what it held before.
#[verifier::external_body]
fn sessions_put(m: &mut ScrapingSessionMap, key: &str, session: ScrapingSession)
    ensures
        scraping_sessions(*final(m)) == scraping_sessions(*old(m)).insert(key@, session),
{
    m.insert(key.to_string(), session);
}

/// `DashMap::retain`: the entries that are fresh at `now` stay as they are,
/// the others leave.
#[verifier::external_body]
fn sessions_retain_fresh(m: &mut ScrapingSessionMap, now: u64, max_age_nanos: u64)
    ensures
        forall|k: Seq<char>| #[trigger]
            scraping_sessions(*final(m)).contains_key(k) <==> scraping_sessions(*old(m)).contains_key(k) && scraping_sessions(*old(m))[k].is_fresh(now, max_age_nanos),
        forall|k: Seq<char>| #[trigger]
            scraping_sessions(*final(m)).contains_key(k) ==> scraping_sessions(*final(m))[k]
                == scraping_sessions(*old(m))[k],
{
    m.retain(|_, session| session.seen_within(now, max_age_nanos));
}

/// `DashMap::len`: the number of entries.
#[verifier::external_body]
fn sessions_len(m: &ScrapingSessionMap) -> (n: usize)
    ensures
        n == scraping_sessions(*m).dom().len(),
{
    m.len()
}

/// `DashMap::iter`, each entry given as whether its session is flagged at
/// `threshold`: one answer for each entry of the map, in no stated order.
#[verifier::external_body]
fn sessions_flags(m: &ScrapingSessionMap, threshold: u32) -> (flags: Vec<(String, bool)>)
    ensures
        forall|i: int, j: int|
            0 <= i < j < flags@.len() ==> (#[trigger] flags@[i]).0@ != (#[trigger] flags@[j]).0@,
        forall|i: int|
            0 <= i < flags@.len() ==> scraping_sessions(*m).contains_key(
                (#[trigger] flags@[i]).0@,
            ) && flags@[i].1 == scraping_sessions(*m)[flags@[i].0@].is_flagged(threshold),
        forall|k: Seq<char>|
            scraping_sessions(*m).contains_key(k) ==> exists|i: int|
                0 <= i < flags@.len() && (#[trigger] flags@[i]).0@ == k,
{
    m.iter().map(|entry| (entry.key().clone(), entry.value().flagged(threshold))).collect()
}

// ---------------------------------------------------------------------------
// Verdicts
// ---------------------------------------------------------------------------

/// The verdict on a request that did not go into the honeypot, from the
/// score of its session.
///
/// At or above the threshold, `Block` mode refuses; `Challenge` mode lets a
/// client with a valid CAPTCHA cookie pass, challenges the others where the
/// CAPTCHA is enabled and refuses them where it is not; `Detect` mode
/// records. Below the threshold only `Detect` mode records.
pub open spec fn verdict_of_score(
    mode: AntiScrapingMode,
    captcha_enabled: bool,
    threshold: u32,
    score: u32,
    valid_captcha: bool,
) -> ScrapingVerdict {
    if score >= threshold {
        match mode {
            AntiScrapingMode::Block => ScrapingVerdict::Block,
            AntiScrapingMode::Challenge => if valid_captcha {
                ScrapingVerdict::Allow
            } else if captcha_enabled {
                ScrapingVerdict::Challenge
            } else {
                ScrapingVerdict::Block
            },
            AntiScrapingMode::Detect => ScrapingVerdict::Detect,
        }
    } else {
        match mode {
            AntiScrapingMode::Detect => ScrapingVerdict::Detect,
            _ => ScrapingVerdict::Allow,
        }
    }
}

/// The verdict on a request that did not go into the honeypot.
pub fn decide(
    mode: AntiScrapingMode,
    captcha_enabled: bool,
    threshold: u32,
    score: u32,
    valid_captcha: bool,
) -> (v: ScrapingVerdict)
    ensures
        v == verdict_of_score(mode, captcha_enabled, threshold, score, valid_captcha),
{
    if score >= threshold {
        match mode {
            AntiScrapingMode::Block => ScrapingVerdict::Block,
            AntiScrapingMode::Challenge => {
                if valid_captcha {
                    ScrapingVerdict::Allow
                } else if captcha_enabled {
                    ScrapingVerdict::Challenge
                } else {
                    ScrapingVerdict::Block
                }
            },
            AntiScrapingMode::Detect => ScrapingVerdict::Detect,
        }
    } else {
        match mode {
            AntiScrapingMode::Detect => ScrapingVerdict::Detect,
            _ => ScrapingVerdict::Allow,
        }
    }
}

/// A request goes into the honeypot: the honeypot is on and the path begins
/// with the trap prefix.
pub open spec fn springs_trap(config: AntiScrapingConfig, path: Seq<char>) -> bool {
    config.honeypot.enabled && config.honeypot.trap_path_prefix@.is_prefix_of(path)
}

/// A request carries, at `now`, a CAPTCHA cookie that is valid for its
/// client under `config`.
pub open spec fn has_valid_captcha(
    config: AntiScrapingConfig,
    ip: Seq<char>,
    cookie_header: Option<Seq<char>>,
    now: u64,
) -> bool {
    config.captcha.enabled && match cookie_header {
        Some(header) => match cookie_in_header(header, CAPTCHA_COOKIE_PREFIX@) {
            Some(cookie) => captcha_cookie_valid(
                cookie,
                ip,
                config.captcha.secret@,
                config.captcha.ttl_secs,
                now,
            ),
            None => false,
        },
        None => false,
    }
}

/// `next` is the session that follows `prev` (or a new session begun at
/// `now`, where there was none) once a request for `path` is recorded at
/// `now`, the trap being sprung or the CAPTCHA solved by this request or
/// before.
pub open spec fn session_follows(
    prev: Option<ScrapingSession>,
    next: ScrapingSession,
    path: Seq<char>,
    bot_score: u32,
    now: u64,
    sprung: bool,
    solved: bool,
) -> bool {
    let first_seen = match prev {
        Some(p) => p.first_seen,
        None => now,
    };
    let count = match prev {
        Some(p) => p.request_count,
        None => 0,
    };
    let paths = match prev {
        Some(p) => p.paths(),
        None => Set::<u64>::empty(),
    };
    let unique = match prev {
        Some(p) => p.unique_path_count,
        None => 0,
    };
    &&& next.first_seen == first_seen
    &&& next.last_seen == now
    &&& next.request_count == (if count == u64::MAX {
        u64::MAX
    } else {
        (count + 1) as u64
    })
    &&& next.paths() == paths.insert(path_hash(path))
    &&& next.unique_path_count == (if paths.contains(path_hash(path)) || unique == u64::MAX {
        unique
    } else {
        (unique + 1) as u64
    })
    &&& next.trap_triggered == (sprung || (prev matches Some(p) && p.trap_triggered))
    &&& next.captcha_solved == (solved || (prev matches Some(p) && p.captcha_solved))
    &&& next.scraping_score == scraping_score_of(
        next.trap_triggered,
        next.request_count,
        age(now, first_seen) as u64,
        next.unique_path_count,
        bot_score,
        next.captcha_solved,
    )
}

/// A session whose trap was sprung and whose CAPTCHA was not solved has the
/// full score, whatever else is known of it.
pub proof fn lemma_sprung_trap_scores_full(
    request_count: u64,
    elapsed_nanos: u64,
    unique_path_count: u64,
    bot_score: u32,
)
    ensures
        scraping_score_of(true, request_count, elapsed_nanos, unique_path_count, bot_score, false)
            == 1000,
{
}

/// Once a request has sprung the trap, the session of the client says so;
/// and every later request of the client finds the full score, until a
/// CAPTCHA is solved. With the full score and no valid CAPTCHA cookie, under
/// any threshold up to 1.0, the request is refused in `Block` mode, met
/// with a CAPTCHA in `Challenge` mode (refused where the CAPTCHA is off),
/// and recorded in `Detect` mode.
pub proof fn lemma_honeypot_loop(
    prev: Option<ScrapingSession>,
    next: ScrapingSession,
    path: Seq<char>,
    bot_score: u32,
    now: u64,
    sprung: bool,
    solved: bool,
    threshold: u32,
)
    requires
        session_follows(prev, next, path, bot_score, now, sprung, solved),
        threshold <= 1000,
    ensures
        sprung ==> next.trap_triggered,
        (prev matches Some(p) && p.trap_triggered) ==> next.trap_triggered,
        next.trap_triggered && !next.captcha_solved ==> {
            &&& next.scraping_score == 1000
            &&& verdict_of_score(AntiScrapingMode::Block, true, threshold, next.scraping_score, false)
                == ScrapingVerdict::Block
            &&& verdict_of_score(AntiScrapingMode::Block, false, threshold, next.scraping_score, false)
                == ScrapingVerdict::Block
            &&& verdict_of_score(
                AntiScrapingMode::Challenge,
                true,
                threshold,
                next.scraping_score,
                false,
            ) == ScrapingVerdict::Challenge
            &&& verdict_of_score(
                AntiScrapingMode::Challenge,
                false,
                threshold,
                next.scraping_score,
                false,
            ) == ScrapingVerdict::Block
            &&& verdict_of_score(AntiScrapingMode::Detect, true, threshold, next.scraping_score, false)
                == ScrapingVerdict::Detect
        },
{
}

/// The body of a response as the engine hands it on.
///
/// With the honeypot on, the trap link of the client goes in before the
/// first `</body>`; with the watermark on, the watermark of the client goes
/// into what that gave. `None` where neither changed anything.
pub open spec fn rewritten(config: AntiScrapingConfig, ip: Seq<char>, body: Seq<u8>) -> Option<
    Seq<u8>,
> {
    let trap = utf8(trap_html(config.honeypot.trap_path_prefix@, ip, config.captcha.secret@));
    let trapped = config.honeypot.enabled && exists|i: int| closing_tag_at(body, i);
    let first = choose|i: int| first_closing_tag(body, i);
    let after_trap = if trapped {
        spliced(body, first, trap)
    } else {
        body
    };
    let marked = config.obfuscation.enabled && vstd::utf8::valid_utf8(after_trap) && has_site(
        vstd::utf8::decode_utf8(after_trap),
    );
    let after_mark = if marked {
        utf8(watermarked_text(vstd::utf8::decode_utf8(after_trap), ip))
    } else {
        after_trap
    };
    if trapped || marked {
        Some(after_mark)
    } else {
        None
    }
}

/// A response is one that the engine rewrites: the engine is on, the
/// content type holds `text/html`, and the body is no longer than 2 MiB.
pub open spec fn is_rewritable(
    config: AntiScrapingConfig,
    content_type: Option<Seq<char>>,
    body: Seq<u8>,
) -> bool {
    &&& config.enabled
    &&& content_type matches Some(ct)
    &&& has_substring(ct, "text/html"@)
    &&& body.len() <= MAX_BODY_BUFFER
}

/// There is one first `</body>` at most.
pub proof fn lemma_first_closing_tag_unique(body: Seq<u8>, i: int, j: int)
    requires
        first_closing_tag(body, i),
        first_closing_tag(body, j),
    ensures
        i == j,
{
}

/// `verdict` and `score` are the assessment of a request, and `after` the
/// sessions that follow `before`, at the reading `unix_now` of the wall
/// clock (seconds) and `mono_now` of the monotonic clock (nanoseconds).
///
/// With the engine off the request passes and the sessions stay.
/// Otherwise the session of the client follows the one it had (or a new
/// one begun at `mono_now`) by this request, all other sessions stay, the
/// score is that of the client's session, and the verdict is the trap for
/// a request into the honeypot and that of the score for any other.
pub open spec fn assessed_at(
    config: AntiScrapingConfig,
    before: Map<Seq<char>, ScrapingSession>,
    after: Map<Seq<char>, ScrapingSession>,
    ip: Seq<char>,
    path: Seq<char>,
    cookie_header: Option<&str>,
    bot_score: u32,
    verdict: ScrapingVerdict,
    score: u32,
    unix_now: u64,
    mono_now: u64,
) -> bool {
    let sprung = springs_trap(config, path);
    let solved = !sprung && has_valid_captcha(
        config,
        ip,
        crate::bot_detect::header_text(cookie_header),
        unix_now,
    );
    let prev = if before.contains_key(ip) {
        Some(before[ip])
    } else {
        None
    };
    &&& !config.enabled ==> verdict == ScrapingVerdict::Allow && after == before
    &&& config.enabled ==> {
        &&& after.dom() == before.dom().insert(ip)
        &&& forall|k: Seq<char>| k != ip && before.contains_key(k) ==> after[k] == before[k]
        &&& session_follows(prev, after[ip], path, bot_score, mono_now, sprung, solved)
        &&& score == after[ip].scraping_score
        &&& verdict == (if sprung {
            ScrapingVerdict::TrapTriggered
        } else {
            verdict_of_score(
                config.mode,
                config.captcha.enabled,
                config.score_threshold,
                score,
                solved,
            )
        })
    }
}

/// `r` says what the verdict says, with the score; where the verdict is a
/// challenge, `r` holds the CAPTCHA page issued at `unix_now` for some
/// numbers that lie in their ranges.
pub open spec fn answers(
    config: AntiScrapingConfig,
    ip: Seq<char>,
    path: Seq<char>,
    r: ScrapingCheckResult,
    verdict: ScrapingVerdict,
    score: u32,
    unix_now: u64,
) -> bool {
    match verdict {
        ScrapingVerdict::Challenge => r matches ScrapingCheckResult::Challenge(html) && exists|
            draw: CaptchaDraw,
        |
            draw.in_range() && html@ == #[trigger] captcha_page(
                ip,
                config.captcha.secret@,
                path,
                unix_now,
                draw,
            ),
        _ => result_matches(r, verdict, score, Seq::<char>::empty()),
    }
}

/// `r` is the answer to a request, and `after` the sessions that follow
/// `before`, at the readings `unix_now` and `mono_now` of the two clocks:
/// the request is assessed as [`assessed_at`] says, and `r` says what the
/// verdict says.
pub open spec fn checked_at(
    config: AntiScrapingConfig,
    before: Map<Seq<char>, ScrapingSession>,
    after: Map<Seq<char>, ScrapingSession>,
    ip: Seq<char>,
    path: Seq<char>,
    cookie_header: Option<&str>,
    bot_score: u32,
    r: ScrapingCheckResult,
    unix_now: u64,
    mono_now: u64,
) -> bool {
    exists|verdict: ScrapingVerdict, score: u32|
        #![trigger answers(config, ip, path, r, verdict, score, unix_now)]
        assessed_at(
            config,
            before,
            after,
            ip,
            path,
            cookie_header,
            bot_score,
            verdict,
            score,
            unix_now,
            mono_now,
        ) && answers(config, ip, path, r, verdict, score, unix_now)
}

/// `after` holds the sessions of `before` that are fresh at `now`, each as
/// it was, and nothing else.
pub open spec fn fresh_sessions(
    before: Map<Seq<char>, ScrapingSession>,
    after: Map<Seq<char>, ScrapingSession>,
    now: u64,
    max_age_nanos: u64,
) -> bool {
    &&& forall|k: Seq<char>| #[trigger]
        after.contains_key(k) <==> before.contains_key(k) && before[k].is_fresh(now, max_age_nanos)
    &&& forall|k: Seq<char>| #[trigger] after.contains_key(k) ==> after[k] == before[k]
}

/// The anti-scraping engine.
pub struct AntiScraper {
    config: AntiScrapingConfig,
    sessions: ScrapingSessionMap,
    clock: Clock,
}

impl AntiScraper {
    /// The configuration the engine was made with.
    pub closed spec fn config(&self) -> AntiScrapingConfig {
        self.config
    }

    /// The sessions it holds, by client address.
    pub closed spec fn sessions(&self) -> Map<Seq<char>, ScrapingSession> {
        scraping_sessions(self.sessions)
    }

    /// The session of a client, if it has one.
    pub open spec fn session_of(&self, ip: Seq<char>) -> Option<ScrapingSession> {
        if self.sessions().contains_key(ip) {
            Some(self.sessions()[ip])
        } else {
            None
        }
    }

    /// An engine with no session yet.
    pub fn new(config: AntiScrapingConfig) -> (s: AntiScraper)
        ensures
            s.config() == config,
            s.sessions() == Map::<Seq<char>, ScrapingSession>::empty(),
    {
        AntiScraper { config, sessions: sessions_new(), clock: Clock::new() }
    }

    /// Assesses a request at the given readings of the wall clock (seconds)
    /// and of the monotonic clock (nanoseconds), and gives the verdict with
    /// the score of the client's session.
    ///
    /// With the engine off nothing is recorded and the request passes. A
    /// request into the honeypot springs the trap of the client's session.
    /// Any other request marks the CAPTCHA of the session solved where it
    /// carries a valid cookie, and is judged by the score of the session
    /// once the request is recorded.
    pub fn assess_at(
        &mut self,
        client_ip: &str,
        path: &str,
        cookie_header: Option<&str>,
        bot_score: u32,
        unix_now: u64,
        mono_now: u64,
    ) -> (r: (ScrapingVerdict, u32))
        ensures
            final(self).config() == old(self).config(),
            assessed_at(
                old(self).config(),
                old(self).sessions(),
                final(self).sessions(),
                client_ip@,
                path@,
                cookie_header,
                bot_score,
                r.0,
                r.1,
                unix_now,
                mono_now,
            ),
            !old(self).config().enabled ==> r.0 == ScrapingVerdict::Allow && final(self).sessions()
                == old(self).sessions(),
            old(self).config().enabled ==> {
                let config = old(self).config();
                let sprung = springs_trap(config, path@);
                let solved = !sprung && has_valid_captcha(
                    config,
                    client_ip@,
                    match cookie_header {
                        Some(h) => Some(h@),
                        None => None,
                    },
                    unix_now,
                );
                &&& final(self).sessions().dom() == old(self).sessions().dom().insert(client_ip@)
                &&& forall|k: Seq<char>|
                    k != client_ip@ && old(self).sessions().contains_key(k) ==> final(self).sessions()[k] == old(self).sessions()[k]
                &&& session_follows(
                    old(self).session_of(client_ip@),
                    final(self).sessions()[client_ip@],
                    path@,
                    bot_score,
                    mono_now,
                    sprung,
                    solved,
                )
                &&& r.1 == final(self).sessions()[client_ip@].scraping_score
                &&& r.0 == (if sprung {
                    ScrapingVerdict::TrapTriggered
                } else {
                    verdict_of_score(
                        config.mode,
                        config.captcha.enabled,
                        config.score_threshold,
                        r.1,
                        solved,
                    )
                })
            },
    {
        if !self.config.enabled {
            return (ScrapingVerdict::Allow, 0);
        }
        let sprung = self.config.honeypot.enabled && is_trap_request(
            path,
            self.config.honeypot.trap_path_prefix.as_str(),
        );
        let solved = if !sprung && self.config.captcha.enabled {
            match cookie_header {
                Some(header) => match extract_captcha_cookie(header) {
                    Some(cookie) => verify_captcha_cookie_at(
                        cookie.as_str(),
                        client_ip,
                        self.config.captcha.secret.as_str(),
                        self.config.captcha.ttl_secs,
                        unix_now,
                    ),
                    None => false,
                },
                None => false,
            }
        } else {
            false
        };
        let mut session = match sessions_take(&mut self.sessions, client_ip) {
            Some(s) => s,
            None => ScrapingSession::new_at(mono_now),
        };
        if sprung {
            session.trap_triggered = true;
        }
        if solved {
            session.captcha_solved = true;
        }
        session.record_request_at(path, bot_score, mono_now);
        let score = session.scraping_score;
        sessions_put(&mut self.sessions, client_ip, session);
        proof {
            assert(final(self).sessions().dom() =~= old(self).sessions().dom().insert(client_ip@));
        }
        if sprung {
            (ScrapingVerdict::TrapTriggered, score)
        } else {
            (
                decide(
                    self.config.mode,
                    self.config.captcha.enabled,
                    self.config.score_threshold,
                    score,
                    solved,
                ),
                score,
            )
        }
    }

    /// Whether the engine is on.
    pub fn is_enabled(&self) -> (r: bool)
        ensures
            r == self.config().enabled,
    {
        self.config.enabled
    }

    /// Whether the engine puts the trap link into pages.
    pub fn injects_trap(&self) -> (r: bool)
        ensures
            r == (self.config().enabled && self.config().honeypot.enabled),
    {
        self.config.enabled && self.config.honeypot.enabled
    }

    /// Whether the engine puts the watermark into pages.
    pub fn injects_watermark(&self) -> (r: bool)
        ensures
            r == (self.config().enabled && self.config().obfuscation.enabled),
    {
        self.config.enabled && self.config.obfuscation.enabled
    }

    /// The CAPTCHA page for a client that asked for `path`, issued at
    /// `unix_now` with the numbers of `draw`.
    pub fn captcha_page_at(&self, client_ip: &str, path: &str, unix_now: u64, draw: &CaptchaDraw) -> (out:
        String)
        ensures
            out@ == captcha_page(client_ip@, self.config().captcha.secret@, path@, unix_now, *draw),
    {
        render_captcha_page(client_ip, self.config.captcha.secret.as_str(), path, unix_now, draw)
    }

    /// Checks a request at the given readings of the two clocks; a CAPTCHA
    /// page, where one is due, is written with the numbers of `draw`.
    pub fn check_request_at(
        &mut self,
        client_ip: &str,
        path: &str,
        _method: &str,
        cookie_header: Option<&str>,
        bot_score: u32,
        unix_now: u64,
        mono_now: u64,
        draw: &CaptchaDraw,
    ) -> (r: ScrapingCheckResult)
        ensures
            final(self).config() == old(self).config(),
            !old(self).config().enabled ==> r is Allow && final(self).sessions() == old(self).sessions(),
            old(self).config().enabled ==> {
                let config = old(self).config();
                let sprung = springs_trap(config, path@);
                let solved = !sprung && has_valid_captcha(
                    config,
                    client_ip@,
                    match cookie_header {
                        Some(h) => Some(h@),
                        None => None,
                    },
                    unix_now,
                );
                let score = final(self).sessions()[client_ip@].scraping_score;
                &&& final(self).sessions().dom() == old(self).sessions().dom().insert(client_ip@)
                &&& forall|k: Seq<char>|
                    k != client_ip@ && old(self).sessions().contains_key(k) ==> final(self).sessions()[k] == old(self).sessions()[k]
                &&& session_follows(
                    old(self).session_of(client_ip@),
                    final(self).sessions()[client_ip@],
                    path@,
                    bot_score,
                    mono_now,
                    sprung,
                    solved,
                )
                &&& result_matches(
                    r,
                    if sprung {
                        ScrapingVerdict::TrapTriggered
                    } else {
                        verdict_of_score(
                            config.mode,
                            config.captcha.enabled,
                            config.score_threshold,
                            score,
                            solved,
                        )
                    },
                    score,
                    captcha_page(client_ip@, config.captcha.secret@, path@, unix_now, *draw),
                )
            },
    {
        let (verdict, score) = self.assess_at(
            client_ip,
            path,
            cookie_header,
            bot_score,
            unix_now,
            mono_now,
        );
        match verdict {
            ScrapingVerdict::Allow => ScrapingCheckResult::Allow,
            ScrapingVerdict::Block => ScrapingCheckResult::Block,
            ScrapingVerdict::Challenge => ScrapingCheckResult::Challenge(
                render_captcha_page(
                    client_ip,
                    self.config.captcha.secret.as_str(),
                    path,
                    unix_now,
                    draw,
                ),
            ),
            ScrapingVerdict::Detect => ScrapingCheckResult::Detect { score },
            ScrapingVerdict::TrapTriggered => ScrapingCheckResult::TrapTriggered,
        }
    }

    /// Checks a request now. The result and the sessions afterwards are
    /// those of [`AntiScraper::check_request_at`] at some readings of the
    /// two clocks and, where a CAPTCHA is issued, for some numbers drawn
    /// within their ranges.
    pub fn check_request(
        &mut self,
        client_ip: &str,
        path: &str,
        method: &str,
        cookie_header: Option<&str>,
        bot_score: u32,
    ) -> (r: ScrapingCheckResult)
        ensures
            final(self).config() == old(self).config(),
            exists|unix_now: u64, mono_now: u64| #[trigger]
                checked_at(
                    old(self).config(),
                    old(self).sessions(),
                    final(self).sessions(),
                    client_ip@,
                    path@,
                    cookie_header,
                    bot_score,
                    r,
                    unix_now,
                    mono_now,
                ),
            !old(self).config().enabled ==> r is Allow && final(self).sessions() == old(self).sessions(),
            old(self).config().enabled ==> {
                &&& final(self).sessions().dom() == old(self).sessions().dom().insert(client_ip@)
                &&& r is TrapTriggered <==> springs_trap(old(self).config(), path@)
                &&& springs_trap(old(self).config(), path@) ==> final(self).sessions()[client_ip@].trap_triggered
            },
    {
        let unix_now = unix_now_secs();
        let mono_now = self.clock.now_nanos();
        let (verdict, score) = self.assess_at(
            client_ip,
            path,
            cookie_header,
            bot_score,
            unix_now,
            mono_now,
        );
        let r = match verdict {
            ScrapingVerdict::Allow => ScrapingCheckResult::Allow,
            ScrapingVerdict::Block => ScrapingCheckResult::Block,
            ScrapingVerdict::Challenge => {
                let draw = draw_captcha();
                let html = render_captcha_page(
                    client_ip,
                    self.config.captcha.secret.as_str(),
                    path,
                    unix_now,
                    &draw,
                );
                proof {
                    assert(draw.in_range() && html@ == captcha_page(
                        client_ip@,
                        self.config().captcha.secret@,
                        path@,
                        unix_now,
                        draw,
                    ));
                }
                ScrapingCheckResult::Challenge(html)
            },
            ScrapingVerdict::Detect => ScrapingCheckResult::Detect { score },
            ScrapingVerdict::TrapTriggered => ScrapingCheckResult::TrapTriggered,
        };
        proof {
            assert(answers(old(self).config(), client_ip@, path@, r, verdict, score, unix_now));
            assert(checked_at(
                old(self).config(),
                old(self).sessions(),
                self.sessions(),
                client_ip@,
                path@,
                cookie_header,
                bot_score,
                r,
                unix_now,
                mono_now,
            ));
        }
        r
    }

    /// Rewrites the body of a response for a client: the trap link first,
    /// then the watermark. `None` means that the body goes out as it came:
    /// where the engine is off, the content type is not HTML, the body is
    /// longer than 2 MiB, or nothing could be put in.
    pub fn process_response(&self, client_ip: &str, content_type: Option<&str>, body: &[u8]) -> (r:
        Option<Vec<u8>>)
        ensures
            match r {
                Some(out) => is_rewritable(
                    self.config(),
                    match content_type {
                        Some(ct) => Some(ct@),
                        None => None,
                    },
                    body@,
                ) && rewritten(self.config(), client_ip@, body@) == Some(out@),
                None => !is_rewritable(
                    self.config(),
                    match content_type {
                        Some(ct) => Some(ct@),
                        None => None,
                    },
                    body@,
                ) || rewritten(self.config(), client_ip@, body@) is None,
            },
            body@.len() > MAX_BODY_BUFFER ==> r is None,
    {
        if !self.config.enabled {
            return None;
        }
        let ct = match content_type {
            Some(ct) => ct,
            None => {
                return None;
            },
        };
        let ct_chars = chars_of(ct);
        if !contains_str(ct_chars.as_slice(), "text/html") {
            return None;
        }
        if body.len() > MAX_BODY_BUFFER {
            return None;
        }
        let mut modified: Option<Vec<u8>> = None;
        if self.config.honeypot.enabled {
            let trap = generate_trap_html(
                self.config.honeypot.trap_path_prefix.as_str(),
                client_ip,
                self.config.captcha.secret.as_str(),
            );
            modified = inject_trap(body, trap.as_str());
            proof {
                if modified is Some {
                    let i = choose|i: int|
                        first_closing_tag(body@, i) && modified->Some_0@ == spliced(
                            body@,
                            i,
                            utf8(trap@),
                        );
                    let first = choose|i: int| first_closing_tag(body@, i);
                    lemma_first_closing_tag_unique(body@, i, first);
                }
            }
        }
        if self.config.obfuscation.enabled {
            let marked = match &modified {
                Some(with_trap) => inject_zero_width_chars(with_trap.as_slice(), client_ip),
                None => inject_zero_width_chars(body, client_ip),
            };
            if marked.is_some() {
                modified = marked;
            }
        }
        modified
    }

    /// Drops the sessions last seen `max_age_nanos` or more before `now`.
    pub fn cleanup_sessions_at(&mut self, max_age_nanos: u64, now: u64)
        ensures
            final(self).config() == old(self).config(),
            forall|k: Seq<char>| #[trigger]
                final(self).sessions().contains_key(k) <==> old(self).sessions().contains_key(k)
                    && old(self).sessions()[k].is_fresh(now, max_age_nanos),
            forall|k: Seq<char>| #[trigger]
                final(self).sessions().contains_key(k) ==> final(self).sessions()[k] == old(self).sessions()[k],
    {
        sessions_retain_fresh(&mut self.sessions, now, max_age_nanos);
    }

    /// Drops the sessions that were last seen `max_age_nanos` or more ago:
    /// what stays is what is fresh at some reading of the clock. No session
    /// is added and none that stays is changed; with a `max_age_nanos` of 0
    /// none stays.
    pub fn cleanup_sessions(&mut self, max_age_nanos: u64)
        ensures
            final(self).config() == old(self).config(),
            exists|now: u64|
                fresh_sessions(old(self).sessions(), final(self).sessions(), now, max_age_nanos),
            forall|k: Seq<char>| #[trigger]
                final(self).sessions().contains_key(k) ==> old(self).sessions().contains_key(k)
                    && final(self).sessions()[k] == old(self).sessions()[k],
            max_age_nanos == 0 ==> final(self).sessions() == Map::<
                Seq<char>,
                ScrapingSession,
            >::empty(),
    {
        let now = self.clock.now_nanos();
        self.cleanup_sessions_at(max_age_nanos, now);
        proof {
            assert(fresh_sessions(old(self).sessions(), self.sessions(), now, max_age_nanos));
            if max_age_nanos == 0 {
                assert(final(self).sessions() =~= Map::<Seq<char>, ScrapingSession>::empty());
            }
        }
    }

    /// The number of sessions.
    pub fn session_count(&self) -> (n: usize)
        ensures
            n == self.sessions().dom().len(),
    {
        sessions_len(&self.sessions)
    }

    /// The addresses whose session has a score at or above the threshold.
    pub open spec fn flagged_clients(&self) -> Set<Seq<char>> {
        Set::new(
            |k: Seq<char>|
                self.sessions().contains_key(k) && self.sessions()[k].is_flagged(
                    self.config().score_threshold,
                ),
        )
    }

    /// The number of sessions with a score at or above the threshold.
    pub fn flagged_scraper_count(&self) -> (n: usize)
        ensures
            n == self.flagged_clients().len(),
    {
        let flags = sessions_flags(&self.sessions, self.config.score_threshold);
        let mut n: usize = 0;
        let mut i: usize = 0;
        let ghost mut seen: Set<Seq<char>> = Set::empty();
        while i < flags.len()
            invariant
                i <= flags.len(),
                n <= i,
                seen.finite(),
                seen.len() == n,
                forall|k: Seq<char>|
                    seen.contains(k) <==> exists|j: int|
                        0 <= j < i && (#[trigger] flags@[j]).0@ == k && flags@[j].1,
                forall|a: int, b: int|
                    0 <= a < b < flags@.len() ==> (#[trigger] flags@[a]).0@ != (
                    #[trigger] flags@[b]).0@,
            decreases flags.len() - i,
        {
            if flags[i].1 {
                proof {
                    let key = flags@[i as int].0@;
                    assert(!seen.contains(key)) by {
                        if seen.contains(key) {
                            let j = choose|j: int|
                                0 <= j < i && (#[trigger] flags@[j]).0@ == key && flags@[j].1;
                            assert(flags@[j].0@ != flags@[i as int].0@);
                        }
                    }
                    let grown = seen.insert(key);
                    assert forall|k: Seq<char>| grown.contains(k) <==> exists|j: int|
                        0 <= j < i + 1 && (#[trigger] flags@[j]).0@ == k && flags@[j].1 by {
                        if grown.contains(k) {
                            if k == key {
                                assert(flags@[i as int].0@ == k && flags@[i as int].1);
                            } else {
                                let j = choose|j: int|
                                    0 <= j < i && (#[trigger] flags@[j]).0@ == k && flags@[j].1;
                                assert(0 <= j < i + 1);
                            }
                        }
                    }
                    seen = grown;
                }
                n += 1;
            } else {
                proof {
                    assert forall|k: Seq<char>| seen.contains(k) <==> exists|j: int|
                        0 <= j < i + 1 && (#[trigger] flags@[j]).0@ == k && flags@[j].1 by {
                        if exists|j: int|
                            0 <= j < i + 1 && (#[trigger] flags@[j]).0@ == k && flags@[j].1 {
                            let j = choose|j: int|
                                0 <= j < i + 1 && (#[trigger] flags@[j]).0@ == k && flags@[j].1;
                            assert(j < i);
                        }
                    }
                }
            }
            i += 1;
        }
        proof {
            assert(seen =~= self.flagged_clients()) by {
                assert forall|k: Seq<char>| seen.contains(k) <==> self.flagged_clients().contains(
                    k,
                ) by {
                    if self.flagged_clients().contains(k) {
                        let j = choose|j: int| 0 <= j < flags@.len() && (#[trigger] flags@[j]).0@ == k;
                        assert(flags@[j].1);
                    }
                }
            }
        }
        n
    }
}

/// The result `r` says what the verdict `v` says, with the score and the
/// page that belong to it.
pub open spec fn result_matches(
    r: ScrapingCheckResult,
    v: ScrapingVerdict,
    score: u32,
    page: Seq<char>,
) -> bool {
    match v {
        ScrapingVerdict::Allow => r is Allow,
        ScrapingVerdict::Block => r is Block,
        ScrapingVerdict::Challenge => r matches ScrapingCheckResult::Challenge(html) && html@
            == page,
        ScrapingVerdict::Detect => r matches ScrapingCheckResult::Detect { score: s } && s == score,
        ScrapingVerdict::TrapTriggered => r is TrapTriggered,
    }
}

} // verus!
