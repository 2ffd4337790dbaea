use layer7waf::known_bots::{classify_lowered, classify_user_agent, BotPattern};

#[test]
fn test_known_good_bots() {
    assert_eq!(
        classify_user_agent(
            "Mozilla/5.0 (compatible; Googlebot/2.1; +http://www.google.com/bot.html)",
            &[]
        ),
        BotPattern::KnownGoodBot
    );
    assert_eq!(
        classify_user_agent(
            "Mozilla/5.0 (compatible; Bingbot/2.0; +http://www.bing.com/bingbot.htm)",
            &[]
        ),
        BotPattern::KnownGoodBot
    );
}

#[test]
fn test_known_bad_bots() {
    assert_eq!(classify_user_agent("curl/7.88.1", &[]), BotPattern::KnownBadBot);
    assert_eq!(classify_user_agent("python-requests/2.31.0", &[]), BotPattern::KnownBadBot);
    assert_eq!(classify_user_agent("Scrapy/2.9.0", &[]), BotPattern::KnownBadBot);
    assert_eq!(classify_user_agent("Wget/1.21", &[]), BotPattern::KnownBadBot);
}

#[test]
fn test_suspicious() {
    assert_eq!(classify_user_agent("", &[]), BotPattern::Suspicious);
    assert_eq!(classify_user_agent("MyCustomBot/1.0", &[]), BotPattern::Suspicious);
}

#[test]
fn test_likely_human() {
    assert_eq!(
        classify_user_agent(
            "Mozilla/5.0 (Windows NT 10.0; Win64; x64) AppleWebKit/537.36 (KHTML, like Gecko) Chrome/120.0.0.0 Safari/537.36",
            &[]
        ),
        BotPattern::LikelyHuman
    );
}

#[test]
fn test_custom_allowlist() {
    assert_eq!(
        classify_user_agent("MyInternalBot/1.0", &["MyInternalBot".to_string()]),
        BotPattern::KnownGoodBot
    );
}

#[test]
fn every_pattern_of_each_list() {
    for p in [
        "googlebot", "bingbot", "yandexbot", "duckduckbot", "baiduspider", "slurp",
        "facebookexternalhit", "twitterbot", "linkedinbot", "applebot",
    ] {
        assert_eq!(classify_user_agent(&format!("x {} y", p.to_uppercase()), &[]), BotPattern::KnownGoodBot);
    }
    for p in [
        "curl", "wget", "python-requests", "python-urllib", "scrapy", "httpclient",
        "go-http-client", "java/", "libwww-perl", "mechanize", "phantom", "headlesschrome",
        "selenium",
    ] {
        assert_eq!(classify_user_agent(&format!("x {p} y"), &[]), BotPattern::KnownBadBot, "{p}");
    }
    for p in ["bot", "crawler", "spider", "scraper", "fetch", "scan"] {
        assert_eq!(classify_user_agent(&format!("x {p} y"), &[]), BotPattern::Suspicious, "{p}");
    }
}

#[test]
fn precedence_is_top_to_bottom() {
    // A good bot that also looks bad is good.
    assert_eq!(classify_user_agent("Googlebot via curl", &[]), BotPattern::KnownGoodBot);
    // An allowlist entry wins over a bad-bot word inside it.
    assert_eq!(
        classify_user_agent("internal-curl-monitor/2", &["Internal-CURL-Monitor".to_string()]),
        BotPattern::KnownGoodBot
    );
    assert_eq!(classify_user_agent("internal-curl-monitor/2", &[]), BotPattern::KnownBadBot);
    // A browser that mentions a suspicious word is a browser.
    assert_eq!(
        classify_user_agent("Mozilla/5.0 Chrome/120 fetch", &[]),
        BotPattern::LikelyHuman
    );
    assert_eq!(classify_user_agent("Mozilla/5.0 fetch", &[]), BotPattern::Suspicious);
    // A browser that mentions a bad-bot word is a bad bot.
    assert_eq!(
        classify_user_agent("Mozilla/5.0 HeadlessChrome/120 Safari", &[]),
        BotPattern::KnownBadBot
    );
    assert_eq!(classify_user_agent("something else", &[]), BotPattern::LikelyHuman);
    // An empty allowlist entry is in every user agent, the empty one too.
    assert_eq!(classify_user_agent("", &["".to_string()]), BotPattern::KnownGoodBot);
    assert_eq!(classify_user_agent("curl", &["".to_string()]), BotPattern::KnownGoodBot);
}

#[test]
fn classification_of_lowered_text() {
    let chars = |s: &str| -> Vec<char> { s.chars().collect() };
    assert_eq!(classify_lowered(false, &chars("curl/8"), &vec![]), BotPattern::KnownBadBot);
    assert_eq!(classify_lowered(true, &chars(""), &vec![]), BotPattern::Suspicious);
    assert_eq!(classify_lowered(false, &chars(""), &vec![]), BotPattern::LikelyHuman);
    assert_eq!(
        classify_lowered(false, &chars("abc"), &vec![chars("zz"), chars("bc")]),
        BotPattern::KnownGoodBot
    );
    // The text is taken as it is: nothing is lowered here.
    assert_eq!(classify_lowered(false, &chars("CURL"), &vec![]), BotPattern::LikelyHuman);
}
