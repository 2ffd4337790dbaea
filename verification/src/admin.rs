//! The data of the administrative interface: the audit log and its
//! queries, the custom rules, and the statistics.

use crate::text::{chars_of, starts_with, trim, trimmed};
use vstd::prelude::*;

verus! {

/// One entry of the audit log.
#[derive(Debug, Clone)]
pub struct AuditLogEntry {
    pub id: String,
    pub timestamp: String,
    pub client_ip: String,
    pub method: String,
    pub uri: String,
    pub rule_id: Option<String>,
    pub action: String,
    pub status: u16,
}

/// A query on the audit log.
#[derive(Debug)]
pub struct LogQuery {
    /// The most entries to give.
    pub limit: usize,
    /// The number of matching entries to pass over.
    pub offset: usize,
    /// Only entries of this client address.
    pub ip: Option<String>,
    /// Only entries of this rule.
    pub rule_id: Option<String>,
}

/// The most entries that a query gives unless it says otherwise.
pub fn default_limit() -> (r: usize)
    ensures
        r == 100,
{
    100
}

/// A request to add a custom rule.
#[derive(Debug)]
pub struct AddRuleRequest {
    pub rule: String,
}

/// A request to try a rule on a made-up request.
#[derive(Debug)]
pub struct TestRuleRequest {
    pub rule: String,
    pub request: TestRequestData,
}

/// The made-up request of a [`TestRuleRequest`].
#[derive(Debug)]
pub struct TestRequestData {
    pub method: String,
    pub uri: String,
    pub headers: Vec<(String, String)>,
    pub body: Option<String>,
}

/// The figures of the country filter.
#[derive(Debug)]
pub struct GeoIpStatsResponse {
    pub geoip_blocked: u64,
    pub geoip_lookups: u64,
    pub enabled: bool,
    pub blocked_countries: Vec<String>,
    pub allowed_countries: Vec<String>,
}

/// The figures of bot detection. The pass rate is in thousandths.
#[derive(Debug, Clone, Copy, PartialEq, Eq, Structural)]
pub struct BotStatsResponse {
    pub bots_detected: u64,
    pub challenges_issued: u64,
    pub challenges_solved: u64,
    pub challenge_pass_rate: u64,
}

/// The figures of anti-scraping. The pass rate is in thousandths.
#[derive(Debug, Clone, Copy, PartialEq, Eq, Structural)]
pub struct ScrapingStatsResponse {
    pub scrapers_blocked: u64,
    pub traps_triggered: u64,
    pub captchas_issued: u64,
    pub captchas_solved: u64,
    pub responses_obfuscated: u64,
    pub captcha_pass_rate: u64,
}

/// An entry answers a query: it is of the client and of the rule that the
/// query asks for, where it asks for any.
pub open spec fn answers(entry: AuditLogEntry, query: LogQuery) -> bool {
    &&& query.ip matches Some(ip) ==> entry.client_ip@ == ip@
    &&& query.rule_id matches Some(rule) ==> (entry.rule_id matches Some(r) && r@ == rule@)
}

/// The indices of the entries that answer a query, in order.
pub open spec fn answering(logs: Seq<AuditLogEntry>, query: LogQuery) -> Seq<int>
    decreases logs.len(),
{
    if logs.len() == 0 {
        Seq::<int>::empty()
    } else if answers(logs.last(), query) {
        answering(logs.drop_last(), query).push(logs.len() - 1)
    } else {
        answering(logs.drop_last(), query)
    }
}

/// The page of a query: of the indices that answer, those from `offset` on,
/// `limit` at most.
pub open spec fn page_of(logs: Seq<AuditLogEntry>, query: LogQuery) -> Seq<int> {
    let all = answering(logs, query);
    if query.offset >= all.len() {
        Seq::<int>::empty()
    } else if query.offset + query.limit >= all.len() {
        all.skip(query.offset as int)
    } else {
        all.subrange(query.offset as int, query.offset + query.limit)
    }
}

fn same_text(a: &str, b: &str) -> (r: bool)
    ensures
        r == (a@ == b@),
{
    let x = chars_of(a);
    let y = chars_of(b);
    let r = x.len() == y.len() && starts_with(x.as_slice(), y.as_slice());
    proof {
        if x@ == y@ {
            assert(y@.is_prefix_of(x@));
        }
        if r {
            assert(x@ =~= y@);
        }
    }
    r
}

fn entry_answers(entry: &AuditLogEntry, query: &LogQuery) -> (r: bool)
    ensures
        r == answers(*entry, *query),
{
    match &query.ip {
        Some(ip) => {
            if !same_text(entry.client_ip.as_str(), ip.as_str()) {
                return false;
            }
        },
        None => {},
    }
    match &query.rule_id {
        Some(rule) => match &entry.rule_id {
            Some(r) => same_text(r.as_str(), rule.as_str()),
            None => false,
        },
        None => true,
    }
}

/// Answers a query on the audit log: the number of entries that answer it,
/// and the indices of those on the page asked for.
pub fn query_logs(logs: &[AuditLogEntry], query: &LogQuery) -> (r: (usize, Vec<usize>))
    ensures
        r.0 == answering(logs@, *query).len(),
        r.1@.len() == page_of(logs@, *query).len(),
        forall|i: int| 0 <= i < r.1@.len() ==> r.1@[i] == page_of(logs@, *query)[i],
        forall|i: int| 0 <= i < r.1@.len() ==> (#[trigger] r.1@[i]) < logs@.len(),
{
    let mut total: usize = 0;
    let mut page: Vec<usize> = Vec::new();
    let mut i: usize = 0;
    proof {
        assert(logs@.take(0) =~= Seq::<AuditLogEntry>::empty());
    }
    while i < logs.len()
        invariant
            i <= logs.len(),
            total <= i,
            total == answering(logs@.take(i as int), *query).len(),
            page@.len() == page_of(logs@.take(i as int), *query).len(),
            forall|k: int|
                0 <= k < page@.len() ==> page@[k] == page_of(logs@.take(i as int), *query)[k],
            forall|k: int| 0 <= k < page@.len() ==> (#[trigger] page@[k]) < i,
        decreases logs.len() - i,
    {
        proof {
            assert(logs@.take(i + 1).drop_last() =~= logs@.take(i as int));
            assert(logs@.take(i + 1).last() == logs@[i as int]);
        }
        if entry_answers(&logs[i], query) {
            if total >= query.offset && total - query.offset < query.limit {
                page.push(i);
            }
            total += 1;
        }
        i += 1;
    }
    proof {
        assert(logs@.take(logs.len() as int) =~= logs@);
    }
    (total, page)
}

/// Why a rule was not added.
#[derive(Debug, Clone, Copy, PartialEq, Eq, Structural)]
pub enum RuleError {
    /// The rule is empty or all white space.
    Empty,
}

/// Adds a custom rule at the end of the list and gives its index. A rule
/// that is empty or all white space is refused, and the list stays.
pub fn add_rule(rules: &mut Vec<String>, rule: String) -> (r: Result<usize, RuleError>)
    ensures
        trimmed(rule@).len() == 0 ==> r is Err && *final(rules) == *old(rules),
        trimmed(rule@).len() > 0 ==> r == Ok::<usize, RuleError>(old(rules)@.len() as usize)
            && final(rules)@ == old(rules)@.push(rule),
{
    let chars = chars_of(rule.as_str());
    if trim(chars.as_slice()).len() == 0 {
        return Err(RuleError::Empty);
    }
    let id = rules.len();
    rules.push(rule);
    Ok(id)
}

/// Takes the custom rule at index `id` out of the list and gives it; the
/// rules after it move up. An index beyond the list gives `None`, and the
/// list stays.
pub fn delete_rule(rules: &mut Vec<String>, id: usize) -> (r: Option<String>)
    ensures
        id >= old(rules)@.len() ==> r is None && *final(rules) == *old(rules),
        id < old(rules)@.len() ==> r == Some(old(rules)@[id as int]) && final(rules)@ == old(rules)@.remove(id as int),
{
    if id >= rules.len() {
        return None;
    }
    Some(rules.remove(id))
}

/// The share of `solved` in `issued`, in thousandths, rounded down; 0
/// where nothing was issued.
pub open spec fn pass_rate_of(solved: u64, issued: u64) -> int {
    if issued == 0 {
        0
    } else {
        (solved * 1000) / (issued as int)
    }
}

/// The share of solved challenges among those issued, in thousandths,
/// held at `u64::MAX`.
pub fn pass_rate(solved: u64, issued: u64) -> (r: u64)
    ensures
        r == (if pass_rate_of(solved, issued) > u64::MAX {
            u64::MAX as int
        } else {
            pass_rate_of(solved, issued)
        }),
{
    if issued == 0 {
        return 0;
    }
    assert(solved * 1000 <= u128::MAX) by (nonlinear_arith)
        requires
            solved <= u64::MAX,
    ;
    let rate: u128 = ((solved as u128) * 1000) / (issued as u128);
    if rate > u64::MAX as u128 {
        u64::MAX
    } else {
        rate as u64
    }
}

/// The figures of bot detection, with the share of challenges that were
/// solved.
pub fn bot_stats(bots_detected: u64, challenges_issued: u64, challenges_solved: u64) -> (r:
    BotStatsResponse)
    ensures
        r.bots_detected == bots_detected,
        r.challenges_issued == challenges_issued,
        r.challenges_solved == challenges_solved,
        r.challenge_pass_rate == (if pass_rate_of(challenges_solved, challenges_issued) > u64::MAX {
            u64::MAX as int
        } else {
            pass_rate_of(challenges_solved, challenges_issued)
        }),
{
    BotStatsResponse {
        bots_detected,
        challenges_issued,
        challenges_solved,
        challenge_pass_rate: pass_rate(challenges_solved, challenges_issued),
    }
}

/// The figures of anti-scraping, with the share of CAPTCHAs that were
/// solved.
pub fn scraping_stats(
    scrapers_blocked: u64,
    traps_triggered: u64,
    captchas_issued: u64,
    captchas_solved: u64,
    responses_obfuscated: u64,
) -> (r: ScrapingStatsResponse)
    ensures
        r.scrapers_blocked == scrapers_blocked,
        r.traps_triggered == traps_triggered,
        r.captchas_issued == captchas_issued,
        r.captchas_solved == captchas_solved,
        r.responses_obfuscated == responses_obfuscated,
        r.captcha_pass_rate == (if pass_rate_of(captchas_solved, captchas_issued) > u64::MAX {
            u64::MAX as int
        } else {
            pass_rate_of(captchas_solved, captchas_issued)
        }),
{
    ScrapingStatsResponse {
        scrapers_blocked,
        traps_triggered,
        captchas_issued,
        captchas_solved,
        responses_obfuscated,
        captcha_pass_rate: pass_rate(captchas_solved, captchas_issued),
    }
}

/// The requests a second over the time the server has been up, in
/// thousandths; 0 for a server that has been up for less than a second.
pub fn requests_per_second(total_requests: u64, uptime_secs: u64) -> (r: u64)
    ensures
        r == (if pass_rate_of(total_requests, uptime_secs) > u64::MAX {
            u64::MAX as int
        } else {
            pass_rate_of(total_requests, uptime_secs)
        }),
{
    pass_rate(total_requests, uptime_secs)
}

} // verus!
