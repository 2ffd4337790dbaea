//! The filter pipeline: the order in which the filters see a request, and
//! what each of their answers does to it.
//!
//! A request passes IP reputation, rate limiting, bot detection, the rule
//! engine and anti-scraping, in this order. The first filter that decides
//! ends the pipeline; an allowlisted address bypasses everything after IP
//! reputation. The rule engine and the upstream are outside this crate: the
//! pipeline says when they are due and takes their answers as arguments.

use crate::anti_scraping::{AntiScraper, ScrapingCheckResult};
use crate::bot_detect::{
    request_score, request_verdict, BotCheckResult, BotDetector, BotVerdict,
};
use crate::clock::{unix_now_secs, Clock};
use crate::config::{AppConfig, RouteConfig, WafMode};
use crate::context::{BlockReason, RequestContext};
use crate::ip_reputation::{address_of_text, parse_address, IpAction, IpReputation};
use crate::js_challenge::{challenge_page, CHALLENGE_COOKIE_PREFIX};
use crate::rate_limit::RateLimiter;
use crate::text::{
    chars_of, contains_str, copy_range, has_substring, split, split_on, starts_with, string_of,
    trim, trimmed, views,
};
use crate::upstream::UpstreamSelector;
use crate::waf::WafAction;
use vstd::prelude::*;

verus! {

broadcast use vstd::string::group_string_axioms;

// ---------------------------------------------------------------------------
// Decisions
// ---------------------------------------------------------------------------

/// What the pipeline decides of a request.
#[derive(Debug)]
pub enum RequestDecision {
    /// The request goes upstream.
    Allow,
    /// The request is refused with this status.
    Block { status: u16, reason: BlockReason },
    /// The client gets a page to solve instead of an answer.
    Challenge { body: String, content_type: String },
    /// The client is sent elsewhere.
    Redirect { status: u16, url: String },
    /// The request goes upstream, with the scores that were recorded.
    DetectOnly { bot_score: Option<u32>, scraping_score: Option<u32> },
}

/// What is to be done to the response of a request that went upstream.
#[derive(Debug)]
pub struct ResponsePlan {
    pub inject_trap: bool,
    pub inject_watermark: bool,
    pub client_ip: String,
}

/// How a stage leaves a request.
#[derive(Debug)]
pub enum StageOutcome {
    /// The next stage is due.
    Continue,
    /// The request goes upstream at once; no later filter sees it.
    Bypass,
    /// The pipeline ends here, with a response made on the spot.
    Decided(RequestDecision),
}

/// A response made on the spot. The connection is closed after each.
#[derive(Debug)]
pub struct LocalResponse {
    pub status: u16,
    pub headers: Vec<(String, String)>,
    pub body: String,
    pub keep_alive: bool,
}

/// The decision is answered on the spot: a refusal, a challenge or a
/// redirection. Any other lets the request go upstream.
pub open spec fn answered_locally(decision: RequestDecision) -> bool {
    decision is Block || decision is Challenge || decision is Redirect
}

/// A stage that ends the pipeline answers on the spot: its outcome holds no
/// decision that lets the request go upstream.
pub open spec fn stops_locally(out: StageOutcome) -> bool {
    out matches StageOutcome::Decided(d) ==> answered_locally(d)
}

/// The status is one that HTTP knows: three digits, the first not zero.
pub open spec fn valid_status(status: u16) -> bool {
    100 <= status <= 999
}

/// The body of the response that refuses a request.
pub open spec fn refusal_body(reason: BlockReason) -> Seq<char> {
    match reason {
        BlockReason::IpBlocked => "Forbidden: IP blocked\n"@,
        BlockReason::RateLimit => "Rate limit exceeded\n"@,
        BlockReason::BotDetected { .. } => "Forbidden: Bot detected\n"@,
        BlockReason::Waf { .. } => "Forbidden: WAF rule triggered\n"@,
        BlockReason::ScraperDetected { .. } => "Forbidden: Scraper detected\n"@,
        BlockReason::HoneypotTriggered => "Forbidden\n"@,
    }
}

/// Where a request stands in the pipeline.
#[derive(Debug, Clone, Copy, PartialEq, Eq, Structural)]
pub enum PipelineState {
    Enter,
    IpCheck,
    RateCheck,
    BotCheck,
    /// Route matching and the rule engine on the request headers.
    WafRequest,
    /// Anti-scraping.
    ScrapingCheck,
    Upstream,
    /// The rule engine on the response headers.
    WafResponse,
    BodyRewrite,
    /// A response is made on the spot.
    RespondLocal,
    Log,
    Done,
}

/// The state after `state`, given how its stage left the request: a
/// decision leads to the local response and from there to the log; a bypass
/// leads from any filter to the upstream; otherwise the stages follow one
/// another in their order.
pub open spec fn state_after(state: PipelineState, decided: bool, bypass: bool) -> PipelineState {
    match state {
        PipelineState::Enter => PipelineState::IpCheck,
        PipelineState::IpCheck | PipelineState::RateCheck | PipelineState::BotCheck
        | PipelineState::WafRequest | PipelineState::ScrapingCheck => if decided {
            PipelineState::RespondLocal
        } else if bypass {
            PipelineState::Upstream
        } else {
            match state {
                PipelineState::IpCheck => PipelineState::RateCheck,
                PipelineState::RateCheck => PipelineState::BotCheck,
                PipelineState::BotCheck => PipelineState::WafRequest,
                PipelineState::WafRequest => PipelineState::ScrapingCheck,
                _ => PipelineState::Upstream,
            }
        },
        PipelineState::Upstream => if decided {
            PipelineState::RespondLocal
        } else {
            PipelineState::WafResponse
        },
        PipelineState::WafResponse => PipelineState::BodyRewrite,
        PipelineState::BodyRewrite => PipelineState::Log,
        PipelineState::RespondLocal => PipelineState::Log,
        PipelineState::Log => PipelineState::Done,
        PipelineState::Done => PipelineState::Done,
    }
}

/// The state that follows `state` once its stage has left the request with
/// `outcome`.
pub fn advance(state: PipelineState, outcome: &StageOutcome) -> (next: PipelineState)
    ensures
        next == state_after(state, *outcome is Decided, *outcome is Bypass),
{
    let decided = match outcome {
        StageOutcome::Decided(_) => true,
        _ => false,
    };
    let bypass = match outcome {
        StageOutcome::Bypass => true,
        _ => false,
    };
    match state {
        PipelineState::Enter => PipelineState::IpCheck,
        PipelineState::IpCheck => if decided {
            PipelineState::RespondLocal
        } else if bypass {
            PipelineState::Upstream
        } else {
            PipelineState::RateCheck
        },
        PipelineState::RateCheck => if decided {
            PipelineState::RespondLocal
        } else if bypass {
            PipelineState::Upstream
        } else {
            PipelineState::BotCheck
        },
        PipelineState::BotCheck => if decided {
            PipelineState::RespondLocal
        } else if bypass {
            PipelineState::Upstream
        } else {
            PipelineState::WafRequest
        },
        PipelineState::WafRequest => if decided {
            PipelineState::RespondLocal
        } else if bypass {
            PipelineState::Upstream
        } else {
            PipelineState::ScrapingCheck
        },
        PipelineState::ScrapingCheck => if decided {
            PipelineState::RespondLocal
        } else {
            PipelineState::Upstream
        },
        PipelineState::Upstream => if decided {
            PipelineState::RespondLocal
        } else {
            PipelineState::WafResponse
        },
        PipelineState::WafResponse => PipelineState::BodyRewrite,
        PipelineState::BodyRewrite => PipelineState::Log,
        PipelineState::RespondLocal => PipelineState::Log,
        PipelineState::Log => PipelineState::Done,
        PipelineState::Done => PipelineState::Done,
    }
}

/// Every request reaches the log, and from any state in twelve steps at
/// most; a request that a stage has decided goes there by way of the local
/// response, without going upstream.
pub proof fn lemma_every_request_is_logged(state: PipelineState, decided: bool, bypass: bool)
    ensures
        state_after(PipelineState::RespondLocal, decided, bypass) == PipelineState::Log,
        state_after(PipelineState::Log, decided, bypass) == PipelineState::Done,
        decided && state != PipelineState::Enter && state != PipelineState::WafResponse && state
            != PipelineState::BodyRewrite && state != PipelineState::RespondLocal && state
            != PipelineState::Log && state != PipelineState::Done ==> state_after(
            state,
            decided,
            bypass,
        ) == PipelineState::RespondLocal,
        state != PipelineState::Done ==> state_after(state, decided, bypass) != state,
{
}

/// What the pipeline has decided of a request that no stage stopped: it
/// goes upstream, and where a score was recorded on the way the scores go
/// with the decision.
pub fn conclude(ctx: &RequestContext) -> (decision: RequestDecision)
    ensures
        ctx.bot_score is None && ctx.scraping_score is None ==> decision is Allow,
        ctx.bot_score is Some || ctx.scraping_score is Some ==> decision == (
        RequestDecision::DetectOnly {
            bot_score: ctx.bot_score,
            scraping_score: ctx.scraping_score,
        }),
{
    if ctx.bot_score.is_some() || ctx.scraping_score.is_some() {
        RequestDecision::DetectOnly { bot_score: ctx.bot_score, scraping_score: ctx.scraping_score }
    } else {
        RequestDecision::Allow
    }
}

/// The IP stage: a blocked address is refused with 403, an allowed one
/// bypasses the rest, any other goes on. An address that could not be read
/// was not looked up, and goes on.
pub fn ip_stage(action: Option<IpAction>) -> (out: StageOutcome)
    ensures
        stops_locally(out),
        action == Some(IpAction::Block) ==> out == StageOutcome::Decided(
            RequestDecision::Block { status: 403, reason: BlockReason::IpBlocked },
        ),
        action == Some(IpAction::Allow) ==> out is Bypass,
        action != Some(IpAction::Block) && action != Some(IpAction::Allow) ==> out is Continue,
{
    match action {
        Some(IpAction::Block) => StageOutcome::Decided(
            RequestDecision::Block { status: 403, reason: BlockReason::IpBlocked },
        ),
        Some(IpAction::Allow) => StageOutcome::Bypass,
        _ => StageOutcome::Continue,
    }
}

/// The rate stage: a request that the limiter refuses is answered with 429.
pub fn rate_stage(admitted: bool) -> (out: StageOutcome)
    ensures
        stops_locally(out),
        admitted ==> out is Continue,
        !admitted ==> out == StageOutcome::Decided(
            RequestDecision::Block { status: 429, reason: BlockReason::RateLimit },
        ),
{
    if admitted {
        StageOutcome::Continue
    } else {
        StageOutcome::Decided(RequestDecision::Block { status: 429, reason: BlockReason::RateLimit })
    }
}

/// What the bot stage records besides its outcome.
#[derive(Debug, Clone, Copy, PartialEq, Eq, Structural)]
pub struct BotStageNotes {
    /// The score to put into the context, in thousandths.
    pub bot_score: Option<u32>,
    /// A bot was detected.
    pub bot_detected: bool,
    /// A challenge was issued.
    pub challenge_issued: bool,
    /// A challenge was solved: the request passed and presented the cookie.
    pub challenge_solved: bool,
}

/// The content type of a challenge page.
pub const HTML_CONTENT_TYPE: &'static str = "text/html; charset=utf-8";

/// The score at which a detected client counts as a bot: 0.7.
pub const BOT_DETECTED_SCORE: u32 = 700;

/// The bot stage: a refusal is answered with 403, a challenge with the
/// page, a detection goes on with the score recorded, and a pass goes on.
/// A pass with the challenge cookie presented counts as a solved challenge.
pub fn bot_stage(result: BotCheckResult, cookie_presented: bool) -> (out: (
    StageOutcome,
    BotStageNotes,
))
    ensures
        stops_locally(out.0),
        match result {
            BotCheckResult::Block => {
                &&& out.0 == StageOutcome::Decided(
                    RequestDecision::Block {
                        status: 403,
                        reason: BlockReason::BotDetected { score: 1000 },
                    },
                )
                &&& out.1 == (BotStageNotes {
                    bot_score: None,
                    bot_detected: true,
                    challenge_issued: false,
                    challenge_solved: false,
                })
            },
            BotCheckResult::Challenge(html) => {
                &&& out.0 matches StageOutcome::Decided(
                    RequestDecision::Challenge { body, content_type },
                )
                &&& body == html
                &&& content_type@ == HTML_CONTENT_TYPE@
                &&& out.1 == (BotStageNotes {
                    bot_score: None,
                    bot_detected: false,
                    challenge_issued: true,
                    challenge_solved: false,
                })
            },
            BotCheckResult::Detect { score } => {
                &&& out.0 is Continue
                &&& out.1 == (BotStageNotes {
                    bot_score: Some(score),
                    bot_detected: score >= BOT_DETECTED_SCORE,
                    challenge_issued: false,
                    challenge_solved: false,
                })
            },
            BotCheckResult::Allow => {
                &&& out.0 is Continue
                &&& out.1 == (BotStageNotes {
                    bot_score: None,
                    bot_detected: false,
                    challenge_issued: false,
                    challenge_solved: cookie_presented,
                })
            },
        },
{
    match result {
        BotCheckResult::Block => (
            StageOutcome::Decided(
                RequestDecision::Block { status: 403, reason: BlockReason::BotDetected { score: 1000 } },
            ),
            BotStageNotes {
                bot_score: None,
                bot_detected: true,
                challenge_issued: false,
                challenge_solved: false,
            },
        ),
        BotCheckResult::Challenge(html) => (
            StageOutcome::Decided(
                RequestDecision::Challenge { body: html, content_type: HTML_CONTENT_TYPE.to_owned() },
            ),
            BotStageNotes {
                bot_score: None,
                bot_detected: false,
                challenge_issued: true,
                challenge_solved: false,
            },
        ),
        BotCheckResult::Detect { score } => (
            StageOutcome::Continue,
            BotStageNotes {
                bot_score: Some(score),
                bot_detected: score >= BOT_DETECTED_SCORE,
                challenge_issued: false,
                challenge_solved: false,
            },
        ),
        BotCheckResult::Allow => (
            StageOutcome::Continue,
            BotStageNotes {
                bot_score: None,
                bot_detected: false,
                challenge_issued: false,
                challenge_solved: cookie_presented,
            },
        ),
    }
}

/// The stage of the rule engine on the request headers. In `Block` mode a
/// refusal is answered with the status the engine gave (403 where that is
/// no HTTP status) and a redirection with a `Location` (302 likewise); in
/// any other mode the engine is heard and the request goes on.
pub fn waf_request_stage(mode: WafMode, action: WafAction) -> (out: StageOutcome)
    ensures
        stops_locally(out),
        match action {
            WafAction::Pass => out is Continue,
            WafAction::Block { status } => if mode == WafMode::Block {
                out == StageOutcome::Decided(
                    RequestDecision::Block {
                        status: if valid_status(status) {
                            status
                        } else {
                            403
                        },
                        reason: BlockReason::Waf { status },
                    },
                )
            } else {
                out is Continue
            },
            WafAction::Redirect { status, url } => if mode == WafMode::Block {
                out == StageOutcome::Decided(
                    RequestDecision::Redirect {
                        status: if valid_status(status) {
                            status
                        } else {
                            302
                        },
                        url,
                    },
                )
            } else {
                out is Continue
            },
        },
{
    let blocking = match mode {
        WafMode::Block => true,
        _ => false,
    };
    match action {
        WafAction::Pass => StageOutcome::Continue,
        WafAction::Block { status } => {
            if blocking {
                let code = if 100 <= status && status <= 999 {
                    status
                } else {
                    403
                };
                StageOutcome::Decided(
                    RequestDecision::Block { status: code, reason: BlockReason::Waf { status } },
                )
            } else {
                StageOutcome::Continue
            }
        },
        WafAction::Redirect { status, url } => {
            if blocking {
                let code = if 100 <= status && status <= 999 {
                    status
                } else {
                    302
                };
                StageOutcome::Decided(RequestDecision::Redirect { status: code, url })
            } else {
                StageOutcome::Continue
            }
        },
    }
}

/// The anti-scraping stage: a refusal and a sprung trap are answered with
/// 403, a challenge with the CAPTCHA page, a detection goes on with the
/// score recorded, and a pass goes on. `score` is the score of the
/// client's session.
pub fn scraping_stage(result: ScrapingCheckResult, score: u32) -> (out: (StageOutcome, Option<u32>))
    ensures
        stops_locally(out.0),
        match result {
            ScrapingCheckResult::Block => out.0 == StageOutcome::Decided(
                RequestDecision::Block { status: 403, reason: BlockReason::ScraperDetected { score } },
            ) && out.1 is None,
            ScrapingCheckResult::TrapTriggered => out.0 == StageOutcome::Decided(
                RequestDecision::Block { status: 403, reason: BlockReason::HoneypotTriggered },
            ) && out.1 is None,
            ScrapingCheckResult::Challenge(html) => {
                &&& out.0 matches StageOutcome::Decided(
                    RequestDecision::Challenge { body, content_type },
                )
                &&& body == html
                &&& content_type@ == HTML_CONTENT_TYPE@
                &&& out.1 is None
            },
            ScrapingCheckResult::Detect { score: s } => out.0 is Continue && out.1 == Some(s),
            ScrapingCheckResult::Allow => out.0 is Continue && out.1 is None,
        },
{
    match result {
        ScrapingCheckResult::Block => (
            StageOutcome::Decided(
                RequestDecision::Block { status: 403, reason: BlockReason::ScraperDetected { score } },
            ),
            None,
        ),
        ScrapingCheckResult::TrapTriggered => (
            StageOutcome::Decided(
                RequestDecision::Block { status: 403, reason: BlockReason::HoneypotTriggered },
            ),
            None,
        ),
        ScrapingCheckResult::Challenge(html) => (
            StageOutcome::Decided(
                RequestDecision::Challenge { body: html, content_type: HTML_CONTENT_TYPE.to_owned() },
            ),
            None,
        ),
        ScrapingCheckResult::Detect { score: s } => (StageOutcome::Continue, Some(s)),
        ScrapingCheckResult::Allow => (StageOutcome::Continue, None),
    }
}

fn header(name: &str, value: &str) -> (h: (String, String))
    ensures
        h.0@ == name@,
        h.1@ == value@,
{
    (name.to_owned(), value.to_owned())
}

/// The response that a decision makes on the spot; none where the request
/// goes upstream.
///
/// A refusal is plain text that ends with a line feed, and a refusal for the
/// rate carries `Retry-After: 1`. A challenge is a page that must not be
/// stored. A redirection has a `Location` and no body. Whatever the
/// decision, the connection is not kept alive after a response made here.
pub fn local_response(decision: RequestDecision) -> (r: Option<LocalResponse>)
    ensures
        r is Some <==> answered_locally(decision),
        r matches Some(resp) ==> !resp.keep_alive,
        match decision {
            RequestDecision::Allow => r is None,
            RequestDecision::DetectOnly { .. } => r is None,
            RequestDecision::Block { status, reason } => {
                &&& r matches Some(resp)
                &&& resp.status == status
                &&& !resp.keep_alive
                &&& resp.body@ == refusal_body(reason)
                &&& resp.headers@.len() == (if reason == BlockReason::RateLimit {
                    2int
                } else {
                    1int
                })
                &&& resp.headers@[0].0@ == "content-type"@
                &&& resp.headers@[0].1@ == "text/plain"@
                &&& reason == BlockReason::RateLimit ==> resp.headers@[1].0@ == "retry-after"@
                    && resp.headers@[1].1@ == "1"@
            },
            RequestDecision::Challenge { body, content_type } => {
                &&& r matches Some(resp)
                &&& resp.status == 200
                &&& !resp.keep_alive
                &&& resp.body == body
                &&& resp.headers@.len() == 2
                &&& resp.headers@[0].0@ == "content-type"@
                &&& resp.headers@[0].1 == content_type
                &&& resp.headers@[1].0@ == "cache-control"@
                &&& resp.headers@[1].1@ == "no-store"@
            },
            RequestDecision::Redirect { status, url } => {
                &&& r matches Some(resp)
                &&& resp.status == status
                &&& !resp.keep_alive
                &&& resp.body@.len() == 0
                &&& resp.headers@.len() == 1
                &&& resp.headers@[0].0@ == "location"@
                &&& resp.headers@[0].1 == url
            },
        },
{
    match decision {
        RequestDecision::Allow => None,
        RequestDecision::DetectOnly { .. } => None,
        RequestDecision::Block { status, reason } => {
            let mut headers: Vec<(String, String)> = Vec::new();
            headers.push(header("content-type", "text/plain"));
            let body = match reason {
                BlockReason::IpBlocked => "Forbidden: IP blocked\n".to_owned(),
                BlockReason::RateLimit => {
                    headers.push(header("retry-after", "1"));
                    "Rate limit exceeded\n".to_owned()
                },
                BlockReason::BotDetected { .. } => "Forbidden: Bot detected\n".to_owned(),
                BlockReason::Waf { .. } => "Forbidden: WAF rule triggered\n".to_owned(),
                BlockReason::ScraperDetected { .. } => "Forbidden: Scraper detected\n".to_owned(),
                BlockReason::HoneypotTriggered => "Forbidden\n".to_owned(),
            };
            Some(LocalResponse { status, headers, body, keep_alive: false })
        },
        RequestDecision::Challenge { body, content_type } => {
            let mut headers: Vec<(String, String)> = Vec::new();
            headers.push(("content-type".to_owned(), content_type));
            headers.push(header("cache-control", "no-store"));
            Some(LocalResponse { status: 200, headers, body, keep_alive: false })
        },
        RequestDecision::Redirect { status, url } => {
            let mut headers: Vec<(String, String)> = Vec::new();
            headers.push(("location".to_owned(), url));
            Some(LocalResponse { status, headers, body: String::new(), keep_alive: false })
        },
    }
}

// ---------------------------------------------------------------------------
// The address of the client
// ---------------------------------------------------------------------------

/// The index of the last `:` of a text, or -1.
pub open spec fn last_colon(s: Seq<char>) -> int
    decreases s.len(),
{
    if s.len() == 0 {
        -1
    } else if s.last() == ':' {
        s.len() - 1
    } else {
        last_colon(s.drop_last())
    }
}

/// An address without the port that may follow it. A text with a `:` and a
/// `.` that does not begin with `[` is an IPv4 address with a port, and
/// loses what stands from the last `:` on; any other text stays.
pub open spec fn without_port(s: Seq<char>) -> Seq<char> {
    if last_colon(s) >= 0 && s[0] != '[' && s.contains('.') {
        s.take(last_colon(s))
    } else {
        s
    }
}

/// The address of the client: the first entry of `X-Forwarded-For` where
/// the header came, the address of the peer where it did not, and in both
/// cases without the port.
pub open spec fn client_ip_of(forwarded_for: Option<Seq<char>>, peer_addr: Option<Seq<char>>)
    -> Seq<char> {
    without_port(
        match forwarded_for {
            Some(header) => trimmed(split(header, ',')[0]),
            None => match peer_addr {
                Some(addr) => addr,
                None => Seq::<char>::empty(),
            },
        },
    )
}

fn find_last_colon(s: &[char]) -> (r: Option<usize>)
    ensures
        match r {
            Some(i) => last_colon(s@) == i && i < s.len(),
            None => last_colon(s@) == -1,
        },
{
    let mut i: usize = s.len();
    proof {
        assert(s@.take(s.len() as int) =~= s@);
    }
    while i > 0
        invariant
            i <= s.len(),
            last_colon(s@) == last_colon(s@.take(i as int)),
        decreases i,
    {
        proof {
            assert(s@.take(i as int).last() == s@[i - 1]);
            assert(s@.take(i as int).drop_last() =~= s@.take(i - 1));
        }
        if s[i - 1] == ':' {
            return Some(i - 1);
        }
        i -= 1;
    }
    None
}

fn has_char(s: &[char], c: char) -> (r: bool)
    ensures
        r == s@.contains(c),
{
    let mut i: usize = 0;
    while i < s.len()
        invariant
            i <= s.len(),
            forall|k: int| 0 <= k < i ==> s@[k] != c,
        decreases s.len() - i,
    {
        if s[i] == c {
            return true;
        }
        i += 1;
    }
    false
}

/// The address of the client of a request.
pub fn extract_client_ip(forwarded_for: Option<&str>, peer_addr: Option<&str>) -> (ip: String)
    ensures
        ip@ == client_ip_of(
            match forwarded_for {
                Some(h) => Some(h@),
                None => None,
            },
            match peer_addr {
                Some(a) => Some(a@),
                None => None,
            },
        ),
{
    let raw: Vec<char> = match forwarded_for {
        Some(header) => {
            let h = chars_of(header);
            let pieces = split_on(h.as_slice(), ',');
            proof {
                assert(views(pieces@)[0] == pieces@[0]@);
            }
            trim(pieces[0].as_slice())
        },
        None => match peer_addr {
            Some(addr) => chars_of(addr),
            None => Vec::new(),
        },
    };
    match find_last_colon(raw.as_slice()) {
        Some(at) => {
            if raw[0] != '[' && has_char(raw.as_slice(), '.') {
                let cut = copy_range(raw.as_slice(), 0, at);
                proof {
                    assert(cut@ =~= raw@.take(at as int));
                }
                string_of(cut.as_slice())
            } else {
                string_of(raw.as_slice())
            }
        },
        None => string_of(raw.as_slice()),
    }
}

// ---------------------------------------------------------------------------
// Routes
// ---------------------------------------------------------------------------

/// A route is for a request: the route names no host or names the host of
/// the request, and the path of the request begins with the prefix of the
/// route.
pub open spec fn route_matches(route: RouteConfig, host: Option<Seq<char>>, path: Seq<char>)
    -> bool {
    &&& match route.host {
        Some(route_host) => host matches Some(h) && h == route_host@,
        None => true,
    }
    &&& route.path_prefix@.is_prefix_of(path)
}

/// `i` is the first route that is for a request.
pub open spec fn is_first_route(
    routes: Seq<RouteConfig>,
    host: Option<Seq<char>>,
    path: Seq<char>,
    i: int,
) -> bool {
    &&& 0 <= i < routes.len()
    &&& route_matches(routes[i], host, path)
    &&& forall|k: int| 0 <= k < i ==> !route_matches(#[trigger] routes[k], host, path)
}

/// The index of the first route that is for a request with this host and
/// path, in the order the routes are configured.
pub fn find_route(routes: &[RouteConfig], host: Option<&str>, path: &str) -> (r: Option<usize>)
    ensures
        match r {
            Some(i) => is_first_route(
                routes@,
                match host {
                    Some(h) => Some(h@),
                    None => None,
                },
                path@,
                i as int,
            ),
            None => forall|k: int|
                0 <= k < routes@.len() ==> !route_matches(
                    #[trigger] routes@[k],
                    match host {
                        Some(h) => Some(h@),
                        None => None,
                    },
                    path@,
                ),
        },
{
    let p = chars_of(path);
    let ghost host_view: Option<Seq<char>> = match host {
        Some(h) => Some(h@),
        None => None,
    };
    let mut i: usize = 0;
    while i < routes.len()
        invariant
            i <= routes.len(),
            p@ == path@,
            host_view == (match host {
                Some(h) => Some(h@),
                None => None,
            }),
            forall|k: int| 0 <= k < i ==> !route_matches(#[trigger] routes@[k], host_view, path@),
        decreases routes.len() - i,
    {
        let route = &routes[i];
        let host_match = match &route.host {
            Some(route_host) => match host {
                Some(h) => {
                    let a = chars_of(h);
                    let b = chars_of(route_host.as_str());
                    let same = a.len() == b.len() && starts_with(a.as_slice(), b.as_slice());
                    proof {
                        if a@ == b@ {
                            assert(b@.is_prefix_of(a@));
                        }
                        if same {
                            assert(a@ =~= b@);
                        }
                    }
                    same
                },
                None => false,
            },
            None => true,
        };
        if host_match {
            let prefix = chars_of(route.path_prefix.as_str());
            if starts_with(p.as_slice(), prefix.as_slice()) {
                return Some(i);
            }
        }
        i += 1;
    }
    None
}

/// The rule-engine mode under which a request is examined: that of its
/// route, where the route has the engine enabled in a mode other than
/// `Off`; none for a request without a route.
pub open spec fn waf_mode_of(routes: Seq<RouteConfig>, route_index: Option<usize>) -> Option<
    WafMode,
> {
    match route_index {
        Some(i) => if i < routes.len() && routes[i as int].waf.enabled && routes[i as int].waf.mode
            != WafMode::Off {
            Some(routes[i as int].waf.mode)
        } else {
            None
        },
        None => None,
    }
}

/// The rule-engine mode under which a request is examined, if any.
pub fn waf_mode_for(routes: &[RouteConfig], route_index: Option<usize>) -> (r: Option<WafMode>)
    ensures
        r == waf_mode_of(routes@, route_index),
{
    match route_index {
        Some(i) => {
            if i < routes.len() && routes[i].waf.enabled {
                match routes[i].waf.mode {
                    WafMode::Off => None,
                    mode => Some(mode),
                }
            } else {
                None
            }
        },
        None => None,
    }
}

/// The name of the upstream of a request: that of its route, else that of
/// the first route, else `backend`.
pub open spec fn upstream_name_of(routes: Seq<RouteConfig>, route_index: Option<usize>) -> Seq<
    char,
> {
    if route_index is Some && route_index->Some_0 < routes.len() {
        routes[route_index->Some_0 as int].upstream@
    } else if routes.len() > 0 {
        routes[0].upstream@
    } else {
        "backend"@
    }
}

/// The name of the upstream of a request.
pub fn upstream_name_for(routes: &[RouteConfig], route_index: Option<usize>) -> (name: String)
    ensures
        name@ == upstream_name_of(routes@, route_index),
{
    match route_index {
        Some(i) => {
            if i < routes.len() {
                return routes[i].upstream.clone();
            }
        },
        None => {},
    }
    if routes.len() > 0 {
        routes[0].upstream.clone()
    } else {
        "backend".to_owned()
    }
}

/// The headers added to every response that comes from upstream.
pub fn security_headers() -> (headers: Vec<(String, String)>)
    ensures
        headers@.len() == 3,
        headers@[0].0@ == "x-content-type-options"@ && headers@[0].1@ == "nosniff"@,
        headers@[1].0@ == "x-frame-options"@ && headers@[1].1@ == "DENY"@,
        headers@[2].0@ == "x-waf-processed"@ && headers@[2].1@ == "true"@,
{
    let mut headers: Vec<(String, String)> = Vec::new();
    headers.push(header("x-content-type-options", "nosniff"));
    headers.push(header("x-frame-options", "DENY"));
    headers.push(header("x-waf-processed", "true"));
    headers
}

/// The headers added to the request that goes upstream: the address of the
/// client, where it is known.
pub fn upstream_request_headers(client_ip: &str) -> (headers: Vec<(String, String)>)
    ensures
        client_ip@.len() == 0 ==> headers@.len() == 0,
        client_ip@.len() > 0 ==> headers@.len() == 1 && headers@[0].0@ == "x-real-ip"@
            && headers@[0].1@ == client_ip@,
{
    let mut headers: Vec<(String, String)> = Vec::new();
    if chars_of(client_ip).len() > 0 {
        headers.push(header("x-real-ip", client_ip));
    }
    headers
}

/// One line of the request log.
#[derive(Debug)]
pub struct LogRecord {
    pub client_ip: String,
    pub method: String,
    pub uri: String,
    pub status: u16,
    pub duration_ms: u64,
    pub blocked: bool,
    pub block_reason: Option<BlockReason>,
    pub bot_score: Option<u32>,
    pub scraping_score: Option<u32>,
}

/// The log record of a request that took `duration_ms` milliseconds.
pub fn log_record(ctx: &RequestContext, duration_ms: u64) -> (rec: LogRecord)
    ensures
        rec.client_ip@ == ctx.client_ip@,
        rec.method@ == ctx.method@,
        rec.uri@ == ctx.uri@,
        rec.status == ctx.response_status,
        rec.duration_ms == duration_ms,
        rec.blocked == ctx.block_reason is Some,
        rec.block_reason == ctx.block_reason,
        rec.bot_score == ctx.bot_score,
        rec.scraping_score == ctx.scraping_score,
{
    LogRecord {
        client_ip: ctx.client_ip.clone(),
        method: ctx.method.clone(),
        uri: ctx.uri.clone(),
        status: ctx.response_status,
        duration_ms,
        blocked: ctx.block_reason.is_some(),
        block_reason: ctx.block_reason,
        bot_score: ctx.bot_score,
        scraping_score: ctx.scraping_score,
    }
}

// ---------------------------------------------------------------------------
// The pipeline
// ---------------------------------------------------------------------------

/// What the pipeline needs to know of a request.
#[derive(Debug)]
pub struct RequestInfo {
    pub method: String,
    /// Path and query.
    pub uri: String,
    pub path: String,
    /// The `Host` header.
    pub host: Option<String>,
    /// The `Cookie` header.
    pub cookie: Option<String>,
    /// The `X-Forwarded-For` header.
    pub forwarded_for: Option<String>,
    /// The address of the peer that the request came from.
    pub peer_addr: Option<String>,
    /// All the headers, in the order they came in.
    pub headers: Vec<(String, String)>,
}

/// The counters of the pipeline. Each stops at `u64::MAX`.
#[derive(Debug, Clone, Copy, PartialEq, Eq, Structural)]
pub struct PipelineCounters {
    pub requests_total: u64,
    pub requests_blocked: u64,
    pub requests_rate_limited: u64,
    pub bots_detected: u64,
    pub challenges_issued: u64,
    pub challenges_solved: u64,
    pub scrapers_blocked: u64,
    pub traps_triggered: u64,
    pub captchas_issued: u64,
}

/// `n` and one more, or `u64::MAX`.
pub open spec fn bumped(n: u64) -> u64 {
    if n == u64::MAX {
        n
    } else {
        (n + 1) as u64
    }
}

/// `n`, and one more where `cond` holds.
pub open spec fn bumped_if(n: u64, cond: bool) -> u64 {
    if cond {
        bumped(n)
    } else {
        n
    }
}

fn bump_if(n: u64, cond: bool) -> (r: u64)
    ensures
        r == bumped_if(n, cond),
{
    if cond {
        n.saturating_add(1)
    } else {
        n
    }
}

/// The optional text behind an optional string.
pub open spec fn text_of(s: Option<String>) -> Option<Seq<char>> {
    match s {
        Some(t) => Some(t@),
        None => None,
    }
}

fn borrow_text(s: &Option<String>) -> (r: Option<&str>)
    ensures
        match r {
            Some(t) => text_of(*s) == Some(t@),
            None => s is None,
        },
{
    match s {
        Some(t) => Some(t.as_str()),
        None => None,
    }
}

/// What the lists of `rep` say of a client, where its address can be read.
pub open spec fn ip_action_of(rep: IpReputation, ip: Seq<char>) -> Option<IpAction> {
    match address_of_text(ip) {
        Some(addr) => Some(
            crate::ip_reputation::action_of(
                crate::trie::some_network_holds(rep.allowed(), addr),
                crate::trie::some_network_holds(rep.blocked(), addr),
            ),
        ),
        None => None,
    }
}

/// The request presents a challenge cookie, valid or not.
pub open spec fn presents_challenge(cookie: Option<Seq<char>>) -> bool {
    cookie matches Some(c) && has_substring(c, CHALLENGE_COOKIE_PREFIX@)
}

/// The filter pipeline with the state of all its filters.
pub struct FilterPipeline {
    pub routes: Vec<RouteConfig>,
    pub ip_reputation: IpReputation,
    pub rate_limiter: Option<RateLimiter>,
    pub bot_detector: Option<BotDetector>,
    pub anti_scraper: Option<AntiScraper>,
    pub upstreams: Vec<UpstreamSelector>,
    pub counters: PipelineCounters,
    pub clock: Clock,
}

impl FilterPipeline {
    /// The rate limiter and the upstream selectors are well formed.
    pub open spec fn wf(&self) -> bool {
        &&& self.rate_limiter matches Some(limiter) ==> limiter.wf()
        &&& forall|i: int| 0 <= i < self.upstreams@.len() ==> (#[trigger] self.upstreams@[i]).wf()
    }

    /// The rate stage is due for a client: there is a limiter, and the
    /// address of the client can be read.
    pub open spec fn rate_stage_due(&self, ip: Seq<char>) -> bool {
        self.rate_limiter is Some && address_of_text(ip) is Some
    }

    /// The rate stage refuses a request of a client at `now`.
    pub open spec fn rate_refuses(&self, ip: Seq<char>, now: u64) -> bool {
        self.rate_stage_due(ip) && !self.rate_limiter->Some_0.admits(ip, now)
    }

    /// The pipeline of a configuration, with the contents of the blocklist
    /// and of the allowlist where they are configured and could be read.
    /// The rate limiter is a token bucket with the default rate and burst.
    pub fn new(config: AppConfig, blocklist: Option<&str>, allowlist: Option<&str>) -> (p:
        FilterPipeline)
        ensures
            p.wf(),
            p.routes == config.routes,
            p.rate_limiter is Some == config.rate_limit.enabled,
            p.bot_detector is Some == config.bot_detection.enabled,
            p.bot_detector matches Some(d) ==> d.config() == config.bot_detection,
            p.anti_scraper is Some == config.anti_scraping.enabled,
            p.anti_scraper matches Some(a) ==> a.config() == config.anti_scraping,
            p.rate_limiter matches Some(limiter) ==> (
            limiter.inner matches crate::rate_limit::RateLimiterInner::TokenBucket(buckets)
                && buckets.rate() == config.rate_limit.default_rps && buckets.burst()
                == config.rate_limit.default_burst && buckets.buckets().dom() == Set::<
                Seq<char>,
            >::empty()),
            p.upstreams@.len() == config.upstreams@.len(),
            forall|i: int|
                0 <= i < p.upstreams@.len() ==> (#[trigger] p.upstreams@[i]).name@
                    == config.upstreams@[i].name@ && p.upstreams@[i].counter == 0
                    && p.upstreams@[i].servers@.len() == config.upstreams@[i].servers@.len(),
            p.ip_reputation.blocked() == (match blocklist {
                Some(contents) => crate::ip_reputation::networks_of_list(contents@),
                None => Set::<crate::ip_reputation::NetworkKey>::empty(),
            }),
            p.ip_reputation.allowed() == (match allowlist {
                Some(contents) => crate::ip_reputation::networks_of_list(contents@),
                None => Set::<crate::ip_reputation::NetworkKey>::empty(),
            }),
            p.counters == (PipelineCounters {
                requests_total: 0,
                requests_blocked: 0,
                requests_rate_limited: 0,
                bots_detected: 0,
                challenges_issued: 0,
                challenges_solved: 0,
                scrapers_blocked: 0,
                traps_triggered: 0,
                captchas_issued: 0,
            }),
    {
        let mut upstreams: Vec<UpstreamSelector> = Vec::new();
        let mut i: usize = 0;
        while i < config.upstreams.len()
            invariant
                i <= config.upstreams.len(),
                upstreams@.len() == i,
                forall|k: int| 0 <= k < i ==> (#[trigger] upstreams@[k]).wf(),
                forall|k: int|
                    0 <= k < i ==> (#[trigger] upstreams@[k]).name@ == config.upstreams@[k].name@
                        && upstreams@[k].counter == 0 && upstreams@[k].servers@.len()
                        == config.upstreams@[k].servers@.len(),
            decreases config.upstreams.len() - i,
        {
            upstreams.push(UpstreamSelector::from_config(&config.upstreams[i]));
            i += 1;
        }
        let rate_limiter = if config.rate_limit.enabled {
            Some(
                RateLimiter::new_token_bucket(
                    config.rate_limit.default_rps,
                    config.rate_limit.default_burst,
                ),
            )
        } else {
            None
        };
        let mut ip_reputation = IpReputation::new();
        ip_reputation.reload_from_config(blocklist, allowlist);
        let bot_detector = if config.bot_detection.enabled {
            Some(BotDetector::new(config.bot_detection))
        } else {
            None
        };
        let anti_scraper = if config.anti_scraping.enabled {
            Some(AntiScraper::new(config.anti_scraping))
        } else {
            None
        };
        FilterPipeline {
            routes: config.routes,
            ip_reputation,
            rate_limiter,
            bot_detector,
            anti_scraper,
            upstreams,
            counters: PipelineCounters {
                requests_total: 0,
                requests_blocked: 0,
                requests_rate_limited: 0,
                bots_detected: 0,
                challenges_issued: 0,
                challenges_solved: 0,
                scrapers_blocked: 0,
                traps_triggered: 0,
                captchas_issued: 0,
            },
            clock: Clock::new(),
        }
    }

    /// The first three stages on a request, at the given readings of the
    /// wall clock (seconds) and the monotonic clock (nanoseconds): IP
    /// reputation, rate limiting and bot detection, as [`filtered_at`]
    /// describes them.
    pub fn request_filter_at(
        &mut self,
        req: &RequestInfo,
        ctx: &mut RequestContext,
        unix_now: u64,
        mono_now: u64,
    ) -> (out: StageOutcome)
        requires
            old(self).wf(),
        ensures
            final(self).wf(),
            filtered_at(
                *old(self),
                *final(self),
                *req,
                *old(ctx),
                *final(ctx),
                out,
                unix_now,
                mono_now,
            ),
    {
        self.counters.requests_total = self.counters.requests_total.saturating_add(1);
        ctx.method = req.method.clone();
        ctx.uri = req.uri.clone();
        ctx.client_ip = extract_client_ip(borrow_text(&req.forwarded_for), borrow_text(&req.peer_addr));
        ctx.route_index = find_route(self.routes.as_slice(), borrow_text(&req.host), req.path.as_str());

        let addr = parse_address(ctx.client_ip.as_str());
        let listed = match addr {
            Some(a) => Some(self.ip_reputation.check(a)),
            None => None,
        };
        match ip_stage(listed) {
            StageOutcome::Decided(decision) => {
                ctx.block_reason = Some(BlockReason::IpBlocked);
                self.counters.requests_blocked = self.counters.requests_blocked.saturating_add(1);
                return StageOutcome::Decided(decision);
            },
            StageOutcome::Bypass => {
                return StageOutcome::Bypass;
            },
            StageOutcome::Continue => {},
        }

        if addr.is_some() {
            let admitted = match &mut self.rate_limiter {
                Some(limiter) => limiter.check_at(ctx.client_ip.as_str(), mono_now),
                None => true,
            };
            match rate_stage(admitted) {
                StageOutcome::Decided(decision) => {
                    ctx.block_reason = Some(BlockReason::RateLimit);
                    self.counters.requests_rate_limited =
                        self.counters.requests_rate_limited.saturating_add(1);
                    self.counters.requests_blocked = self.counters.requests_blocked.saturating_add(
                        1,
                    );
                    return StageOutcome::Decided(decision);
                },
                _ => {},
            }
        }

        let result = match &mut self.bot_detector {
            Some(detector) => detector.check_at(
                ctx.client_ip.as_str(),
                req.headers.as_slice(),
                req.method.as_str(),
                borrow_text(&req.cookie),
                unix_now,
                mono_now,
            ),
            None => {
                return StageOutcome::Continue;
            },
        };
        let presented = match &req.cookie {
            Some(c) => {
                let chars = chars_of(c.as_str());
                contains_str(chars.as_slice(), CHALLENGE_COOKIE_PREFIX)
            },
            None => false,
        };
        let (outcome, notes) = bot_stage(result, presented);
        match notes.bot_score {
            Some(score) => {
                ctx.bot_score = Some(score);
            },
            None => {},
        }
        self.counters.bots_detected = bump_if(self.counters.bots_detected, notes.bot_detected);
        self.counters.challenges_issued = bump_if(
            self.counters.challenges_issued,
            notes.challenge_issued,
        );
        self.counters.challenges_solved = bump_if(
            self.counters.challenges_solved,
            notes.challenge_solved,
        );
        match &outcome {
            StageOutcome::Decided(RequestDecision::Block { .. }) => {
                ctx.block_reason = Some(BlockReason::BotDetected { score: 1000 });
                self.counters.requests_blocked = self.counters.requests_blocked.saturating_add(1);
            },
            _ => {},
        }
        outcome
    }

    /// The first three stages on a request, now: what
    /// [`Self::request_filter_at`] does at some readings of the two clocks.
    /// Whatever the clocks show, the request is counted, a client on the
    /// allowlist bypasses the rest and a client on the blocklist alone is
    /// refused with 403, and neither touches the rate limiter or the bot
    /// detector.
    pub fn request_filter(&mut self, req: &RequestInfo, ctx: &mut RequestContext) -> (out:
        StageOutcome)
        requires
            old(self).wf(),
        ensures
            final(self).wf(),
            exists|unix_now: u64, mono_now: u64| #[trigger]
                filtered_at(
                    *old(self),
                    *final(self),
                    *req,
                    *old(ctx),
                    *final(ctx),
                    out,
                    unix_now,
                    mono_now,
                ),
            final(self).routes == old(self).routes,
            final(self).ip_reputation == old(self).ip_reputation,
            final(self).counters.requests_total == bumped(old(self).counters.requests_total),
            final(ctx).client_ip@ == client_ip_of(text_of(req.forwarded_for), text_of(req.peer_addr)),
            ({
                let ip = client_ip_of(text_of(req.forwarded_for), text_of(req.peer_addr));
                let listed = ip_action_of(old(self).ip_reputation, ip);
                &&& listed == Some(IpAction::Block) ==> out == StageOutcome::Decided(
                    RequestDecision::Block { status: 403, reason: BlockReason::IpBlocked },
                ) && final(self).rate_limiter == old(self).rate_limiter && final(self).bot_detector
                    == old(self).bot_detector
                &&& listed == Some(IpAction::Allow) ==> out is Bypass && final(self).rate_limiter
                    == old(self).rate_limiter && final(self).bot_detector == old(self).bot_detector
            }),
    {
        let unix_now = unix_now_secs();
        let mono_now = self.clock.now_nanos();
        self.request_filter_at(req, ctx, unix_now, mono_now)
    }

    /// The anti-scraping stage on a request, at the given readings of the
    /// clocks; a CAPTCHA page, where one is due, is written with the
    /// numbers of `draw`. The stage comes after the rule engine, and does
    /// what [`scraping_filtered_at`] describes.
    pub fn scraping_filter_at(
        &mut self,
        req: &RequestInfo,
        ctx: &mut RequestContext,
        unix_now: u64,
        mono_now: u64,
        draw: &crate::captcha::CaptchaDraw,
    ) -> (out: StageOutcome)
        ensures
            scraping_filtered_at(
                *old(self),
                *final(self),
                *req,
                *old(ctx),
                *final(ctx),
                out,
                unix_now,
                mono_now,
                *draw,
            ),
    {
        let bot_score = match ctx.bot_score {
            Some(b) => b,
            None => 0,
        };
        let (result, enabled, score) = match &mut self.anti_scraper {
            Some(scraper) => {
                let (verdict, score) = scraper.assess_at(
                    ctx.client_ip.as_str(),
                    req.path.as_str(),
                    borrow_text(&req.cookie),
                    bot_score,
                    unix_now,
                    mono_now,
                );
                let result = match verdict {
                    crate::anti_scraping::ScrapingVerdict::Allow => ScrapingCheckResult::Allow,
                    crate::anti_scraping::ScrapingVerdict::Block => ScrapingCheckResult::Block,
                    crate::anti_scraping::ScrapingVerdict::Challenge => ScrapingCheckResult::Challenge(
                        scraper.captcha_page_at(
                            ctx.client_ip.as_str(),
                            req.path.as_str(),
                            unix_now,
                            draw,
                        ),
                    ),
                    crate::anti_scraping::ScrapingVerdict::Detect => ScrapingCheckResult::Detect {
                        score,
                    },
                    crate::anti_scraping::ScrapingVerdict::TrapTriggered =>
                        ScrapingCheckResult::TrapTriggered,
                };
                (result, scraper.is_enabled(), score)
            },
            None => {
                ctx.should_process_response = false;
                return StageOutcome::Continue;
            },
        };
        let sprung = match &result {
            ScrapingCheckResult::TrapTriggered => true,
            _ => false,
        };
        let blocked = match &result {
            ScrapingCheckResult::Block => true,
            _ => false,
        };
        let challenged = match &result {
            ScrapingCheckResult::Challenge(_) => true,
            _ => false,
        };
        if enabled {
            ctx.is_trap_request = sprung;
        }
        self.counters.traps_triggered = bump_if(self.counters.traps_triggered, sprung);
        self.counters.scrapers_blocked = bump_if(self.counters.scrapers_blocked, blocked);
        self.counters.captchas_issued = bump_if(self.counters.captchas_issued, challenged);
        if sprung {
            ctx.block_reason = Some(BlockReason::HoneypotTriggered);
        }
        if blocked {
            ctx.block_reason = Some(BlockReason::ScraperDetected { score });
        }
        let (outcome, recorded) = scraping_stage(result, score);
        match recorded {
            Some(s) => {
                ctx.scraping_score = Some(s);
            },
            None => {},
        }
        ctx.should_process_response = enabled && match &outcome {
            StageOutcome::Continue => true,
            _ => false,
        };
        outcome
    }

    /// The anti-scraping stage on a request, now: what
    /// [`Self::scraping_filter_at`] does at some readings of the two clocks
    /// and with some numbers drawn within their ranges. Whatever those are, a
    /// request into the honeypot is refused with 403 and never goes
    /// upstream.
    pub fn scraping_filter(&mut self, req: &RequestInfo, ctx: &mut RequestContext) -> (out:
        StageOutcome)
        ensures
            exists|unix_now: u64, mono_now: u64, draw: crate::captcha::CaptchaDraw|
                draw.in_range() && #[trigger] scraping_filtered_at(
                    *old(self),
                    *final(self),
                    *req,
                    *old(ctx),
                    *final(ctx),
                    out,
                    unix_now,
                    mono_now,
                    draw,
                ),
            final(self).routes == old(self).routes,
            final(self).ip_reputation == old(self).ip_reputation,
            final(self).rate_limiter == old(self).rate_limiter,
            final(self).bot_detector == old(self).bot_detector,
            final(self).upstreams == old(self).upstreams,
            old(self).anti_scraper is None ==> out is Continue,
            old(self).anti_scraper matches Some(scraper) && scraper.config().enabled
                && crate::anti_scraping::springs_trap(scraper.config(), req.path@) ==> out
                == StageOutcome::Decided(
                RequestDecision::Block { status: 403, reason: BlockReason::HoneypotTriggered },
            ),
    {
        let unix_now = unix_now_secs();
        let mono_now = self.clock.now_nanos();
        let draw = crate::captcha::draw_captcha();
        self.scraping_filter_at(req, ctx, unix_now, mono_now, &draw)
    }

    /// The selector of the upstream called `name` is at index `i`, and none
    /// before it has that name.
    pub open spec fn is_selector_of(&self, name: Seq<char>, i: int) -> bool {
        &&& 0 <= i < self.upstreams@.len()
        &&& self.upstreams@[i].name@ == name
        &&& forall|k: int| 0 <= k < i ==> (#[trigger] self.upstreams@[k]).name@ != name
    }

    /// The address of the upstream server that a request goes to: the next
    /// in turn among the servers of the upstream of its route. `None` where
    /// there is no upstream of that name or none of its servers has a turn
    /// (it has no server, or all of them weigh zero); the client is then
    /// answered with 502.
    pub fn select_upstream(&mut self, ctx: &RequestContext) -> (r: Option<String>)
        requires
            old(self).wf(),
        ensures
            final(self).wf(),
            final(self).routes == old(self).routes,
            final(self).ip_reputation == old(self).ip_reputation,
            final(self).rate_limiter == old(self).rate_limiter,
            final(self).bot_detector == old(self).bot_detector,
            final(self).anti_scraper == old(self).anti_scraper,
            final(self).counters == old(self).counters,
            final(self).upstreams@.len() == old(self).upstreams@.len(),
            ({
                let name = upstream_name_of(old(self).routes@, ctx.route_index);
                if exists|i: int| old(self).is_selector_of(name, i) {
                    let i = choose|i: int| old(self).is_selector_of(name, i);
                    &&& match r {
                        Some(addr) => old(self).upstreams@[i].current() == Some(addr@),
                        None => old(self).upstreams@[i].current() is None,
                    }
                    &&& forall|k: int|
                        0 <= k < old(self).upstreams@.len() && k != i ==> final(self).upstreams@[k]
                            == old(self).upstreams@[k]
                } else {
                    r is None && final(self).upstreams == old(self).upstreams
                }
            }),
    {
        let name = upstream_name_for(self.routes.as_slice(), ctx.route_index);
        let wanted = chars_of(name.as_str());
        let mut i: usize = 0;
        while i < self.upstreams.len()
            invariant
                i <= self.upstreams.len(),
                *self == *old(self),
                self.wf(),
                wanted@ == upstream_name_of(old(self).routes@, ctx.route_index),
                forall|k: int| 0 <= k < i ==> (#[trigger] self.upstreams@[k]).name@ != wanted@,
            decreases self.upstreams.len() - i,
        {
            let candidate = chars_of(self.upstreams[i].name.as_str());
            let same = candidate.len() == wanted.len() && starts_with(
                candidate.as_slice(),
                wanted.as_slice(),
            );
            proof {
                if candidate@ == wanted@ {
                    assert(wanted@.is_prefix_of(candidate@));
                }
                if same {
                    assert(candidate@ =~= wanted@);
                }
            }
            if same {
                proof {
                    assert(old(self).is_selector_of(wanted@, i as int));
                    let chosen = choose|j: int| old(self).is_selector_of(wanted@, j);
                    assert(chosen == i) by {
                        if chosen < i {
                            assert(old(self).upstreams@[chosen].name@ != wanted@);
                        }
                        if chosen > i {
                            assert(old(self).upstreams@[i as int].name@ != wanted@);
                        }
                    }
                }
                proof {
                    assert(self.upstreams@[i as int].wf());
                }
                let mut selector = self.upstreams.remove(i);
                let picked = selector.select();
                self.upstreams.insert(i, selector);
                proof {
                    assert forall|k: int|
                        0 <= k < old(self).upstreams@.len() && k != i implies self.upstreams@[k]
                        == old(self).upstreams@[k] by {}
                    assert forall|k: int| 0 <= k < self.upstreams@.len() implies (
                    #[trigger] self.upstreams@[k]).wf() by {
                        if k != i {
                            assert(self.upstreams@[k] == old(self).upstreams@[k]);
                            assert(old(self).upstreams@[k].wf());
                        }
                    }
                }
                return picked;
            }
            i += 1;
        }
        proof {
            if exists|j: int| old(self).is_selector_of(wanted@, j) {
                let j = choose|j: int| old(self).is_selector_of(wanted@, j);
                assert(self.upstreams@[j].name@ != wanted@);
            }
        }
        None
    }

    /// The stage on the headers of a response from upstream.
    ///
    /// The context learns the status and the content type. A refusal of the
    /// rule engine is recorded and counted, and the status of the response
    /// becomes the one the engine gave (403 where that is no HTTP status).
    /// The body is marked for rewriting where the request was marked so and
    /// the content type holds `text/html`. The headers to add to the
    /// response are those of [`security_headers`].
    pub fn response_filter(
        &mut self,
        ctx: &mut RequestContext,
        status: u16,
        content_type: Option<&str>,
        waf_action: Option<WafAction>,
    ) -> (headers: Vec<(String, String)>)
        ensures
            final(self).routes == old(self).routes,
            final(self).ip_reputation == old(self).ip_reputation,
            final(self).rate_limiter == old(self).rate_limiter,
            final(self).bot_detector == old(self).bot_detector,
            final(self).anti_scraper == old(self).anti_scraper,
            final(self).upstreams == old(self).upstreams,
            final(ctx).response_status == (match waf_action {
                Some(WafAction::Block { status: refused }) => if valid_status(refused) {
                    refused
                } else {
                    403
                },
                _ => status,
            }),
            final(ctx).client_ip == old(ctx).client_ip,
            final(ctx).route_index == old(ctx).route_index,
            final(ctx).bot_score == old(ctx).bot_score,
            final(ctx).scraping_score == old(ctx).scraping_score,
            text_of(final(ctx).response_content_type) == (match content_type {
                Some(ct) => Some(ct@),
                None => None,
            }),
            final(ctx).should_process_response == (old(ctx).should_process_response && (
            content_type matches Some(ct) && has_substring(ct@, "text/html"@))),
            match waf_action {
                Some(WafAction::Block { status: refused }) => {
                    &&& final(ctx).block_reason == Some(BlockReason::Waf { status: refused })
                    &&& final(self).counters == (PipelineCounters {
                        requests_blocked: bumped(old(self).counters.requests_blocked),
                        ..old(self).counters
                    })
                },
                _ => {
                    &&& final(ctx).block_reason == old(ctx).block_reason
                    &&& final(self).counters == old(self).counters
                },
            },
            headers@.len() == 3,
            headers@[0].0@ == "x-content-type-options"@ && headers@[0].1@ == "nosniff"@,
            headers@[1].0@ == "x-frame-options"@ && headers@[1].1@ == "DENY"@,
            headers@[2].0@ == "x-waf-processed"@ && headers@[2].1@ == "true"@,
    {
        ctx.response_status = status;
        match waf_action {
            Some(WafAction::Block { status: refused }) => {
                ctx.block_reason = Some(BlockReason::Waf { status: refused });
                ctx.response_status = if 100 <= refused && refused <= 999 {
                    refused
                } else {
                    403
                };
                self.counters.requests_blocked = self.counters.requests_blocked.saturating_add(1);
            },
            _ => {},
        }
        let html = match content_type {
            Some(ct) => {
                let chars = chars_of(ct);
                contains_str(chars.as_slice(), "text/html")
            },
            None => false,
        };
        ctx.response_content_type = match content_type {
            Some(ct) => Some(ct.to_owned()),
            None => None,
        };
        ctx.should_process_response = ctx.should_process_response && html;
        security_headers()
    }

    /// Whether a body of which `buffered` bytes are held can take `more`
    /// bytes and still be rewritten: the whole must not be longer than
    /// 2 MiB. A longer body is passed on as it comes.
    pub fn can_buffer(buffered: usize, more: usize) -> (r: bool)
        ensures
            r == (buffered + more <= crate::anti_scraping::MAX_BODY_BUFFER),
    {
        buffered <= crate::anti_scraping::MAX_BODY_BUFFER && more
            <= crate::anti_scraping::MAX_BODY_BUFFER - buffered
    }

    /// The body to send in place of `body`, the whole body of a response
    /// from upstream; `None` where the body goes out as it came. Only a
    /// response that was marked for rewriting is rewritten, and then as
    /// [`AntiScraper::process_response`] says.
    pub fn rewrite_body(&self, ctx: &RequestContext, body: &[u8]) -> (r: Option<Vec<u8>>)
        ensures
            !ctx.should_process_response || self.anti_scraper is None ==> r is None,
            body@.len() > crate::anti_scraping::MAX_BODY_BUFFER ==> r is None,
            ctx.should_process_response && self.anti_scraper is Some ==> {
                let scraper = self.anti_scraper->Some_0;
                let rewritable = crate::anti_scraping::is_rewritable(
                    scraper.config(),
                    text_of(ctx.response_content_type),
                    body@,
                );
                match r {
                    Some(out) => rewritable && crate::anti_scraping::rewritten(
                        scraper.config(),
                        ctx.client_ip@,
                        body@,
                    ) == Some(out@),
                    None => !rewritable || crate::anti_scraping::rewritten(
                        scraper.config(),
                        ctx.client_ip@,
                        body@,
                    ) is None,
                }
            },
    {
        if !ctx.should_process_response {
            return None;
        }
        match &self.anti_scraper {
            Some(scraper) => scraper.process_response(
                ctx.client_ip.as_str(),
                borrow_text(&ctx.response_content_type),
                body,
            ),
            None => None,
        }
    }

    /// What is to be done to the response of a request.
    pub fn response_plan(&self, ctx: &RequestContext) -> (plan: ResponsePlan)
        ensures
            plan.client_ip@ == ctx.client_ip@,
            plan.inject_trap == (ctx.should_process_response && (self.anti_scraper matches Some(
                scraper,
            ) && scraper.config().enabled && scraper.config().honeypot.enabled)),
            plan.inject_watermark == (ctx.should_process_response && (
            self.anti_scraper matches Some(scraper) && scraper.config().enabled
                && scraper.config().obfuscation.enabled)),
    {
        let (trap, mark) = match &self.anti_scraper {
            Some(scraper) => (scraper.injects_trap(), scraper.injects_watermark()),
            None => (false, false),
        };
        ResponsePlan {
            inject_trap: ctx.should_process_response && trap,
            inject_watermark: ctx.should_process_response && mark,
            client_ip: ctx.client_ip.clone(),
        }
    }
}

/// `after` and `ctx_after` are the pipeline and the context, and `out` the
/// outcome, once the first three stages have seen a request at the reading
/// `unix_now` of the wall clock (seconds) and `mono_now` of the monotonic
/// clock (nanoseconds).
///
/// The request is counted, and the context learns the client address, the
/// method, the URI and the route. Then, in this order:
///
/// 1. IP reputation. A blocked address is refused with 403, an allowed one
///    bypasses every later stage; neither touches the rate limiter or the
///    bot detector. An address that cannot be read skips this stage and
///    the next.
/// 2. Rate limiting, where a limiter is configured. A request over the
///    rate is refused with 429, and does not reach the bot detector.
/// 3. Bot detection, where a detector is configured: what [`bot_stage`]
///    makes of the result of [`BotDetector::check_at`].
pub open spec fn filtered_at(
    before: FilterPipeline,
    after: FilterPipeline,
    req: RequestInfo,
    ctx_before: RequestContext,
    ctx_after: RequestContext,
    out: StageOutcome,
    unix_now: u64,
    mono_now: u64,
) -> bool {
    &&& after.wf()
    &&& stops_locally(out)
    &&& after.routes == before.routes
    &&& after.ip_reputation == before.ip_reputation
    &&& after.anti_scraper == before.anti_scraper
    &&& after.upstreams == before.upstreams
    &&& (after.rate_limiter is Some) == (before.rate_limiter is Some)
    &&& ctx_after.client_ip@ == client_ip_of(text_of(req.forwarded_for), text_of(req.peer_addr))
    &&& ctx_after.method@ == req.method@
    &&& ctx_after.uri@ == req.uri@
    &&& ctx_after.scraping_score == ctx_before.scraping_score
    &&& ctx_after.should_process_response == ctx_before.should_process_response
    &&& ctx_after.response_status == ctx_before.response_status
    &&& match ctx_after.route_index {
        Some(i) => is_first_route(before.routes@, text_of(req.host), req.path@, i as int),
        None => forall|k: int|
            0 <= k < before.routes@.len() ==> !route_matches(
                #[trigger] before.routes@[k],
                text_of(req.host),
                req.path@,
            ),
    }
    &&& ({
        let ip = client_ip_of(text_of(req.forwarded_for), text_of(req.peer_addr));
        let listed = ip_action_of(before.ip_reputation, ip);
        let counted = PipelineCounters {
            requests_total: bumped(before.counters.requests_total),
            ..before.counters
        };
        if listed == Some(IpAction::Block) {
            &&& out == StageOutcome::Decided(
                RequestDecision::Block { status: 403, reason: BlockReason::IpBlocked },
            )
            &&& ctx_after.block_reason == Some(BlockReason::IpBlocked)
            &&& ctx_after.bot_score == ctx_before.bot_score
            &&& after.rate_limiter == before.rate_limiter
            &&& after.bot_detector == before.bot_detector
            &&& after.counters == (PipelineCounters {
                requests_blocked: bumped(counted.requests_blocked),
                ..counted
            })
        } else if listed == Some(IpAction::Allow) {
            &&& out is Bypass
            &&& ctx_after.block_reason == ctx_before.block_reason
            &&& ctx_after.bot_score == ctx_before.bot_score
            &&& after.rate_limiter == before.rate_limiter
            &&& after.bot_detector == before.bot_detector
            &&& after.counters == counted
        } else {
            &&& before.rate_stage_due(ip) ==> before.rate_limiter->Some_0.steps_to(
                after.rate_limiter->Some_0,
                ip,
                mono_now,
            )
            &&& !before.rate_stage_due(ip) ==> after.rate_limiter == before.rate_limiter
            &&& if before.rate_refuses(ip, mono_now) {
                &&& out == StageOutcome::Decided(
                    RequestDecision::Block { status: 429, reason: BlockReason::RateLimit },
                )
                &&& ctx_after.block_reason == Some(BlockReason::RateLimit)
                &&& ctx_after.bot_score == ctx_before.bot_score
                &&& after.bot_detector == before.bot_detector
                &&& after.counters == (PipelineCounters {
                    requests_rate_limited: bumped(counted.requests_rate_limited),
                    requests_blocked: bumped(counted.requests_blocked),
                    ..counted
                })
            } else {
                match before.bot_detector {
                    None => {
                        &&& out is Continue
                        &&& after.bot_detector is None
                        &&& after.counters == counted
                        &&& ctx_after.block_reason == ctx_before.block_reason
                        &&& ctx_after.bot_score == ctx_before.bot_score
                    },
                    Some(detector) => {
                        let verdict = request_verdict(
                            detector.config(),
                            ip,
                            req.headers@,
                            text_of(req.cookie),
                            unix_now,
                        );
                        let score = request_score(
                            detector.config(),
                            ip,
                            req.headers@,
                            text_of(req.cookie),
                            unix_now,
                        );
                        &&& after.bot_detector is Some
                        &&& after.bot_detector->Some_0.config() == detector.config()
                        &&& !detector.config().enabled ==> after.bot_detector->Some_0.sessions()
                            == detector.sessions()
                        &&& detector.config().enabled ==> {
                            let held = after.bot_detector->Some_0.sessions();
                            &&& held.dom() == detector.sessions().dom().insert(ip)
                            &&& held[ip].last_seen == mono_now
                            &&& held[ip].fingerprint_hash@ == crate::digest::sha256_hex_of(
                                crate::fingerprint::joined_names(req.headers@),
                            )
                            &&& forall|k: Seq<char>|
                                k != ip && detector.sessions().contains_key(k) ==> held[k]
                                    == detector.sessions()[k]
                        }
                        &&& match verdict {
                            BotVerdict::Block => {
                                &&& out == StageOutcome::Decided(
                                    RequestDecision::Block {
                                        status: 403,
                                        reason: BlockReason::BotDetected { score: 1000 },
                                    },
                                )
                                &&& ctx_after.block_reason == Some(
                                    BlockReason::BotDetected { score: 1000 },
                                )
                                &&& ctx_after.bot_score == ctx_before.bot_score
                                &&& after.counters == (PipelineCounters {
                                    bots_detected: bumped(counted.bots_detected),
                                    requests_blocked: bumped(counted.requests_blocked),
                                    ..counted
                                })
                            },
                            BotVerdict::Challenge => {
                                &&& out matches StageOutcome::Decided(
                                    RequestDecision::Challenge { body, content_type },
                                )
                                &&& body@ == challenge_page(
                                    ip,
                                    detector.config().js_challenge.difficulty,
                                    detector.config().js_challenge.secret@,
                                    unix_now,
                                )
                                &&& content_type@ == HTML_CONTENT_TYPE@
                                &&& ctx_after.block_reason == ctx_before.block_reason
                                &&& ctx_after.bot_score == ctx_before.bot_score
                                &&& after.counters == (PipelineCounters {
                                    challenges_issued: bumped(counted.challenges_issued),
                                    ..counted
                                })
                            },
                            BotVerdict::Detect => {
                                &&& out is Continue
                                &&& ctx_after.block_reason == ctx_before.block_reason
                                &&& ctx_after.bot_score == Some(score as u32)
                                &&& after.counters == (PipelineCounters {
                                    bots_detected: bumped_if(
                                        counted.bots_detected,
                                        score >= BOT_DETECTED_SCORE,
                                    ),
                                    ..counted
                                })
                            },
                            BotVerdict::Allow => {
                                &&& out is Continue
                                &&& ctx_after.block_reason == ctx_before.block_reason
                                &&& ctx_after.bot_score == ctx_before.bot_score
                                &&& after.counters == (PipelineCounters {
                                    challenges_solved: bumped_if(
                                        counted.challenges_solved,
                                        presents_challenge(text_of(req.cookie)),
                                    ),
                                    ..counted
                                })
                            },
                        }
                    },
                }
            }
        }
    })
}

/// `after` and `ctx_after` are the pipeline and the context, and `out` the
/// outcome, once the anti-scraping stage has seen a request at the readings
/// `unix_now` and `mono_now` of the two clocks; a CAPTCHA page, where one
/// is due, is written with the numbers of `draw`.
///
/// The bot score that the engine takes into account is the one recorded in
/// the context, or 0. The outcome is what [`scraping_stage`] makes of the
/// result of [`AntiScraper::check_request_at`]. A request that goes on has
/// its response marked for rewriting.
pub open spec fn scraping_filtered_at(
    before: FilterPipeline,
    after: FilterPipeline,
    req: RequestInfo,
    ctx_before: RequestContext,
    ctx_after: RequestContext,
    out: StageOutcome,
    unix_now: u64,
    mono_now: u64,
    draw: crate::captcha::CaptchaDraw,
) -> bool {
    &&& stops_locally(out)
    &&& after.routes == before.routes
    &&& after.ip_reputation == before.ip_reputation
    &&& after.rate_limiter == before.rate_limiter
    &&& after.bot_detector == before.bot_detector
    &&& after.upstreams == before.upstreams
    &&& ctx_after.client_ip == ctx_before.client_ip
    &&& ctx_after.route_index == ctx_before.route_index
    &&& ctx_after.bot_score == ctx_before.bot_score
    &&& match before.anti_scraper {
        None => out is Continue && after.anti_scraper is None && after.counters
            == before.counters && !ctx_after.should_process_response,
        Some(scraper) => {
            let config = scraper.config();
            let sprung = crate::anti_scraping::springs_trap(config, req.path@);
            let solved = !sprung && crate::anti_scraping::has_valid_captcha(
                config,
                ctx_before.client_ip@,
                text_of(req.cookie),
                unix_now,
            );
            &&& after.anti_scraper is Some
            &&& after.anti_scraper->Some_0.config() == config
            &&& !config.enabled ==> {
                &&& out is Continue
                &&& after.anti_scraper->Some_0.sessions() == scraper.sessions()
                &&& !ctx_after.should_process_response
                &&& after.counters == before.counters
                &&& ctx_after.block_reason == ctx_before.block_reason
                &&& ctx_after.scraping_score == ctx_before.scraping_score
            }
            &&& config.enabled ==> {
                let session = after.anti_scraper->Some_0.sessions()[ctx_before.client_ip@];
                let verdict = if sprung {
                    crate::anti_scraping::ScrapingVerdict::TrapTriggered
                } else {
                    crate::anti_scraping::verdict_of_score(
                        config.mode,
                        config.captcha.enabled,
                        config.score_threshold,
                        session.scraping_score,
                        solved,
                    )
                };
                &&& after.anti_scraper->Some_0.sessions().dom()
                    == scraper.sessions().dom().insert(ctx_before.client_ip@)
                &&& forall|k: Seq<char>|
                    k != ctx_before.client_ip@ && scraper.sessions().contains_key(k)
                        ==> after.anti_scraper->Some_0.sessions()[k]
                        == scraper.sessions()[k]
                &&& crate::anti_scraping::session_follows(
                    scraper.session_of(ctx_before.client_ip@),
                    session,
                    req.path@,
                    match ctx_before.bot_score {
                        Some(b) => b,
                        None => 0,
                    },
                    mono_now,
                    sprung,
                    solved,
                )
                &&& ctx_after.is_trap_request == sprung
                &&& match verdict {
                    crate::anti_scraping::ScrapingVerdict::TrapTriggered => {
                        &&& out == StageOutcome::Decided(
                            RequestDecision::Block {
                                status: 403,
                                reason: BlockReason::HoneypotTriggered,
                            },
                        )
                        &&& ctx_after.block_reason == Some(BlockReason::HoneypotTriggered)
                        &&& ctx_after.scraping_score == ctx_before.scraping_score
                        &&& !ctx_after.should_process_response
                        &&& after.counters == (PipelineCounters {
                            traps_triggered: bumped(before.counters.traps_triggered),
                            ..before.counters
                        })
                    },
                    crate::anti_scraping::ScrapingVerdict::Block => {
                        &&& out == StageOutcome::Decided(
                            RequestDecision::Block {
                                status: 403,
                                reason: BlockReason::ScraperDetected {
                                    score: session.scraping_score,
                                },
                            },
                        )
                        &&& ctx_after.block_reason == Some(
                            BlockReason::ScraperDetected { score: session.scraping_score },
                        )
                        &&& ctx_after.scraping_score == ctx_before.scraping_score
                        &&& !ctx_after.should_process_response
                        &&& after.counters == (PipelineCounters {
                            scrapers_blocked: bumped(before.counters.scrapers_blocked),
                            ..before.counters
                        })
                    },
                    crate::anti_scraping::ScrapingVerdict::Challenge => {
                        &&& out matches StageOutcome::Decided(
                            RequestDecision::Challenge { body, content_type },
                        )
                        &&& body@ == crate::captcha::captcha_page(
                            ctx_before.client_ip@,
                            config.captcha.secret@,
                            req.path@,
                            unix_now,
                            draw,
                        )
                        &&& content_type@ == HTML_CONTENT_TYPE@
                        &&& ctx_after.block_reason == ctx_before.block_reason
                        &&& ctx_after.scraping_score == ctx_before.scraping_score
                        &&& !ctx_after.should_process_response
                        &&& after.counters == (PipelineCounters {
                            captchas_issued: bumped(before.counters.captchas_issued),
                            ..before.counters
                        })
                    },
                    crate::anti_scraping::ScrapingVerdict::Detect => {
                        &&& out is Continue
                        &&& ctx_after.block_reason == ctx_before.block_reason
                        &&& ctx_after.scraping_score == Some(session.scraping_score)
                        &&& ctx_after.should_process_response
                        &&& after.counters == before.counters
                    },
                    crate::anti_scraping::ScrapingVerdict::Allow => {
                        &&& out is Continue
                        &&& ctx_after.block_reason == ctx_before.block_reason
                        &&& ctx_after.scraping_score == ctx_before.scraping_score
                        &&& ctx_after.should_process_response
                        &&& after.counters == before.counters
                    },
                }
            }
        },
    }
}

/// The response to a client whose upstream cannot be reached.
pub fn bad_gateway() -> (resp: LocalResponse)
    ensures
        resp.status == 502,
        resp.body@ == "Bad Gateway\n"@,
        !resp.keep_alive,
        resp.headers@.len() == 1,
        resp.headers@[0].0@ == "content-type"@,
        resp.headers@[0].1@ == "text/plain"@,
{
    let mut headers: Vec<(String, String)> = Vec::new();
    headers.push(header("content-type", "text/plain"));
    LocalResponse { status: 502, headers, body: "Bad Gateway\n".to_owned(), keep_alive: false }
}

} // verus!
