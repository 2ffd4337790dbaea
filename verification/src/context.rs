//! What is carried along with one request through the pipeline.

use crate::clock::Clock;
use vstd::prelude::*;

verus! {

/// Why a request was refused.
#[derive(Debug, Clone, Copy, PartialEq, Eq, Structural)]
pub enum BlockReason {
    /// The rule engine refused it with this status.
    Waf { status: u16 },
    /// The client sent too many requests.
    RateLimit,
    /// The address of the client is on the blocklist.
    IpBlocked,
    /// The client was taken for a bot; the score is in thousandths.
    BotDetected { score: u32 },
    /// The client was taken for a scraper; the score is in thousandths.
    ScraperDetected { score: u32 },
    /// The request went into the honeypot.
    HoneypotTriggered,
}

/// The context of one request.
#[derive(Debug)]
pub struct RequestContext {
    /// Whether a transaction of the rule engine is open for the request.
    pub waf_active: bool,
    /// The index of the route that matched, among the configured routes.
    pub route_index: Option<usize>,
    /// The address of the client, as text.
    pub client_ip: String,
    /// When the request came in, on the monotonic clock, in nanoseconds.
    pub request_start: u64,
    /// Why the request was refused, if it was.
    pub block_reason: Option<BlockReason>,
    pub method: String,
    pub uri: String,
    /// The status of the response; 0 until there is one.
    pub response_status: u16,
    /// The bot score, where it was recorded, in thousandths.
    pub bot_score: Option<u32>,
    /// The scraping score, where it was recorded, in thousandths.
    pub scraping_score: Option<u32>,
    /// Whether the request went into the honeypot.
    pub is_trap_request: bool,
    /// Whether the body of the response is to be rewritten.
    pub should_process_response: bool,
    /// The content type of the response from upstream.
    pub response_content_type: Option<String>,
    /// The body of the response, gathered for rewriting.
    pub response_body_buffer: Vec<u8>,
    /// Counts from the moment the request came in.
    pub clock: Clock,
}

/// Nanoseconds as whole milliseconds, rounded down.
pub open spec fn nanos_to_millis(nanos: u64) -> u64 {
    (nanos / 1_000_000) as u64
}

impl RequestContext {
    /// The context of a request that came in at `now`, with nothing known
    /// of it yet.
    pub fn new_at(now: u64) -> (ctx: RequestContext)
        ensures
            !ctx.waf_active,
            ctx.route_index is None,
            ctx.client_ip@.len() == 0,
            ctx.request_start == now,
            ctx.block_reason is None,
            ctx.method@.len() == 0,
            ctx.uri@.len() == 0,
            ctx.response_status == 0,
            ctx.bot_score is None,
            ctx.scraping_score is None,
            !ctx.is_trap_request,
            !ctx.should_process_response,
            ctx.response_content_type is None,
            ctx.response_body_buffer@.len() == 0,
    {
        RequestContext {
            waf_active: false,
            route_index: None,
            client_ip: String::new(),
            request_start: now,
            block_reason: None,
            method: String::new(),
            uri: String::new(),
            response_status: 0,
            bot_score: None,
            scraping_score: None,
            is_trap_request: false,
            should_process_response: false,
            response_content_type: None,
            response_body_buffer: Vec::new(),
            clock: Clock::new(),
        }
    }

    /// The context of a request that comes in now.
    pub fn new() -> (ctx: RequestContext)
        ensures
            !ctx.waf_active,
            ctx.route_index is None,
            ctx.client_ip@.len() == 0,
            ctx.block_reason is None,
            ctx.method@.len() == 0,
            ctx.uri@.len() == 0,
            ctx.response_status == 0,
            ctx.bot_score is None,
            ctx.scraping_score is None,
            !ctx.is_trap_request,
            !ctx.should_process_response,
            ctx.response_content_type is None,
            ctx.response_body_buffer@.len() == 0,
    {
        RequestContext::new_at(0)
    }

    /// The time since the request came in, in nanoseconds.
    pub fn elapsed_nanos(&self) -> u64 {
        self.clock.now_nanos()
    }

    /// The time since the request came in, in whole milliseconds: a reading
    /// of the clock in nanoseconds, divided by a million and rounded down.
    pub fn elapsed_millis(&self) -> (millis: u64)
        ensures
            exists|nanos: u64| millis == #[trigger] nanos_to_millis(nanos),
    {
        let nanos = self.clock.now_nanos();
        proof {
            assert(nanos / 1_000_000 == nanos_to_millis(nanos));
        }
        nanos / 1_000_000
    }
}

} // verus!
