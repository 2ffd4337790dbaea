//! Classification of `User-Agent` values.

use crate::text::{chars_of, contains, contains_str, has_substring, lowercase, lowercase_chars};
use vstd::prelude::*;

verus! {

/// What a `User-Agent` value says of the client.
#[derive(Debug, Clone, Copy, PartialEq, Eq, Structural)]
pub enum BotPattern {
    /// A crawler that is welcome, such as a search engine's.
    KnownGoodBot,
    /// The signature of a scripted client or scraping tool.
    KnownBadBot,
    /// No known signature, but nothing a browser would send either.
    Suspicious,
    /// Most likely a person using a browser.
    LikelyHuman,
}

/// A lower-cased `User-Agent` names one of the welcome crawlers.
pub open spec fn names_good_bot(ua: Seq<char>) -> bool {
    ||| has_substring(ua, "googlebot"@)
    ||| has_substring(ua, "bingbot"@)
    ||| has_substring(ua, "yandexbot"@)
    ||| has_substring(ua, "duckduckbot"@)
    ||| has_substring(ua, "baiduspider"@)
    ||| has_substring(ua, "slurp"@)
    ||| has_substring(ua, "facebookexternalhit"@)
    ||| has_substring(ua, "twitterbot"@)
    ||| has_substring(ua, "linkedinbot"@)
    ||| has_substring(ua, "applebot"@)
}

/// A lower-cased `User-Agent` names a scripted client or scraping tool.
pub open spec fn names_bad_bot(ua: Seq<char>) -> bool {
    ||| has_substring(ua, "curl"@)
    ||| has_substring(ua, "wget"@)
    ||| has_substring(ua, "python-requests"@)
    ||| has_substring(ua, "python-urllib"@)
    ||| has_substring(ua, "scrapy"@)
    ||| has_substring(ua, "httpclient"@)
    ||| has_substring(ua, "go-http-client"@)
    ||| has_substring(ua, "java/"@)
    ||| has_substring(ua, "libwww-perl"@)
    ||| has_substring(ua, "mechanize"@)
    ||| has_substring(ua, "phantom"@)
    ||| has_substring(ua, "headlesschrome"@)
    ||| has_substring(ua, "selenium"@)
}

/// A lower-cased `User-Agent` holds a word that automated clients use of
/// themselves.
pub open spec fn names_automation(ua: Seq<char>) -> bool {
    ||| has_substring(ua, "bot"@)
    ||| has_substring(ua, "crawler"@)
    ||| has_substring(ua, "spider"@)
    ||| has_substring(ua, "scraper"@)
    ||| has_substring(ua, "fetch"@)
    ||| has_substring(ua, "scan"@)
}

/// A lower-cased `User-Agent` has the shape that browsers send.
pub open spec fn looks_like_browser(ua: Seq<char>) -> bool {
    &&& has_substring(ua, "mozilla"@)
    &&& (has_substring(ua, "chrome"@) || has_substring(ua, "firefox"@) || has_substring(
        ua,
        "safari"@,
    ) || has_substring(ua, "edge"@))
}

/// A lower-cased `User-Agent` holds one of the lower-cased entries of the
/// operator's own allowlist.
pub open spec fn names_allowed(ua: Seq<char>, allowlist: Seq<Seq<char>>) -> bool {
    exists|i: int| 0 <= i < allowlist.len() && has_substring(ua, #[trigger] allowlist[i])
}

/// The class of a `User-Agent`, given whether it is empty, its lower-cased
/// form and the lower-cased allowlist. The four rules apply in this order,
/// and the first that holds decides.
pub open spec fn pattern_of_lowered(
    ua_is_empty: bool,
    ua: Seq<char>,
    allowlist: Seq<Seq<char>>,
) -> BotPattern {
    if names_allowed(ua, allowlist) || names_good_bot(ua) {
        BotPattern::KnownGoodBot
    } else if names_bad_bot(ua) {
        BotPattern::KnownBadBot
    } else if ua_is_empty || (!looks_like_browser(ua) && names_automation(ua)) {
        BotPattern::Suspicious
    } else {
        BotPattern::LikelyHuman
    }
}

/// The lower-cased entries of an allowlist.
pub open spec fn lowered_allowlist(allowlist: Seq<String>) -> Seq<Seq<char>> {
    allowlist.map_values(|s: String| lowercase(s@))
}

/// The class of a `User-Agent` under an allowlist: the match ignores case.
pub open spec fn pattern_of(ua: Seq<char>, allowlist: Seq<String>) -> BotPattern {
    pattern_of_lowered(ua.len() == 0, lowercase(ua), lowered_allowlist(allowlist))
}

fn is_good_bot(ua: &[char]) -> (r: bool)
    ensures
        r == names_good_bot(ua@),
{
    contains_str(ua, "googlebot") || contains_str(ua, "bingbot") || contains_str(ua, "yandexbot")
        || contains_str(ua, "duckduckbot") || contains_str(ua, "baiduspider") || contains_str(
        ua,
        "slurp",
    ) || contains_str(ua, "facebookexternalhit") || contains_str(ua, "twitterbot")
        || contains_str(ua, "linkedinbot") || contains_str(ua, "applebot")
}

fn is_bad_bot(ua: &[char]) -> (r: bool)
    ensures
        r == names_bad_bot(ua@),
{
    contains_str(ua, "curl") || contains_str(ua, "wget") || contains_str(ua, "python-requests")
        || contains_str(ua, "python-urllib") || contains_str(ua, "scrapy") || contains_str(
        ua,
        "httpclient",
    ) || contains_str(ua, "go-http-client") || contains_str(ua, "java/") || contains_str(
        ua,
        "libwww-perl",
    ) || contains_str(ua, "mechanize") || contains_str(ua, "phantom") || contains_str(
        ua,
        "headlesschrome",
    ) || contains_str(ua, "selenium")
}

fn is_automation(ua: &[char]) -> (r: bool)
    ensures
        r == names_automation(ua@),
{
    contains_str(ua, "bot") || contains_str(ua, "crawler") || contains_str(ua, "spider")
        || contains_str(ua, "scraper") || contains_str(ua, "fetch") || contains_str(ua, "scan")
}

fn is_browser_like(ua: &[char]) -> (r: bool)
    ensures
        r == looks_like_browser(ua@),
{
    contains_str(ua, "mozilla") && (contains_str(ua, "chrome") || contains_str(ua, "firefox")
        || contains_str(ua, "safari") || contains_str(ua, "edge"))
}

fn is_allowed(ua: &[char], allowlist: &Vec<Vec<char>>) -> (r: bool)
    ensures
        r == names_allowed(ua@, crate::text::views(allowlist@)),
{
    let mut i: usize = 0;
    while i < allowlist.len()
        invariant
            i <= allowlist.len(),
            forall|k: int|
                0 <= k < i ==> !has_substring(ua@, #[trigger] crate::text::views(allowlist@)[k]),
        decreases allowlist.len() - i,
    {
        if contains(ua, allowlist[i].as_slice()) {
            proof {
                assert(crate::text::views(allowlist@)[i as int] == allowlist@[i as int]@);
            }
            return true;
        }
        i += 1;
    }
    false
}

/// Classifies a `User-Agent` from its lower-cased form and the lower-cased
/// allowlist.
pub fn classify_lowered(ua_is_empty: bool, ua: &[char], allowlist: &Vec<Vec<char>>) -> (r:
    BotPattern)
    ensures
        r == pattern_of_lowered(ua_is_empty, ua@, crate::text::views(allowlist@)),
{
    if is_allowed(ua, allowlist) || is_good_bot(ua) {
        BotPattern::KnownGoodBot
    } else if is_bad_bot(ua) {
        BotPattern::KnownBadBot
    } else if ua_is_empty || (!is_browser_like(ua) && is_automation(ua)) {
        BotPattern::Suspicious
    } else {
        BotPattern::LikelyHuman
    }
}

/// Classifies a `User-Agent`. An entry of `allowlist` that occurs in it,
/// whatever the case, makes it a known good bot before any other rule is
/// tried.
pub fn classify_user_agent(ua: &str, allowlist: &[String]) -> (r: BotPattern)
    ensures
        r == pattern_of(ua@, allowlist@),
{
    let ua_lower = lowercase_chars(ua);
    let mut lowered: Vec<Vec<char>> = Vec::new();
    let mut i: usize = 0;
    while i < allowlist.len()
        invariant
            i <= allowlist.len(),
            lowered@.len() == i,
            crate::text::views(lowered@) == lowered_allowlist(allowlist@.take(i as int)),
        decreases allowlist.len() - i,
    {
        let entry = lowercase_chars(allowlist[i].as_str());
        proof {
            let before = crate::text::views(lowered@);
            let after = crate::text::views(lowered@.push(entry));
            let target = lowered_allowlist(allowlist@.take(i + 1));
            assert(after.len() == target.len());
            assert forall|j: int| 0 <= j < after.len() implies after[j] == target[j] by {
                if j < i {
                    assert(after[j] == before[j]);
                    assert(before[j] == lowered_allowlist(allowlist@.take(i as int))[j]);
                    assert(allowlist@.take(i as int)[j] == allowlist@.take(i + 1)[j]);
                }
            }
            assert(after =~= target);
        }
        lowered.push(entry);
        i += 1;
    }
    proof {
        assert(allowlist@.take(allowlist.len() as int) =~= allowlist@);
    }
    classify_lowered(chars_of(ua).len() == 0, ua_lower.as_slice(), &lowered)
}

} // verus!
