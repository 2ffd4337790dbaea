use layer7waf::admin::{
    bot_stats, scraping_stats, add_rule, default_limit, delete_rule, pass_rate, query_logs, requests_per_second,
    AddRuleRequest, AuditLogEntry, GeoIpStatsResponse, LogQuery, RuleError, TestRequestData,
    TestRuleRequest,
};

fn entry(id: usize, ip: &str, rule: Option<&str>) -> AuditLogEntry {
    AuditLogEntry {
        id: id.to_string(),
        timestamp: "2024-01-01T00:00:00Z".to_string(),
        client_ip: ip.to_string(),
        method: "GET".to_string(),
        uri: "/".to_string(),
        rule_id: rule.map(|r| r.to_string()),
        action: "block".to_string(),
        status: 403,
    }
}

fn logs() -> Vec<AuditLogEntry> {
    vec![
        entry(0, "1.1.1.1", Some("942100")),
        entry(1, "2.2.2.2", None),
        entry(2, "1.1.1.1", None),
        entry(3, "1.1.1.1", Some("941100")),
        entry(4, "3.3.3.3", Some("942100")),
        entry(5, "1.1.1.1", Some("942100")),
    ]
}

fn query(limit: usize, offset: usize, ip: Option<&str>, rule: Option<&str>) -> LogQuery {
    LogQuery { limit, offset, ip: ip.map(|s| s.to_string()), rule_id: rule.map(|s| s.to_string()) }
}

#[test]
fn log_queries() {
    let logs = logs();
    assert_eq!(default_limit(), 100);
    assert_eq!(query_logs(&logs, &query(100, 0, None, None)), (6, vec![0, 1, 2, 3, 4, 5]));
    assert_eq!(query_logs(&logs, &query(2, 0, None, None)), (6, vec![0, 1]));
    assert_eq!(query_logs(&logs, &query(2, 5, None, None)), (6, vec![5]));
    assert_eq!(query_logs(&logs, &query(2, 6, None, None)), (6, vec![]));
    assert_eq!(query_logs(&logs, &query(0, 0, None, None)), (6, vec![]));
    assert_eq!(query_logs(&logs, &query(usize::MAX, usize::MAX, None, None)), (6, vec![]));
    assert_eq!(query_logs(&logs, &query(usize::MAX, 1, None, None)), (6, vec![1, 2, 3, 4, 5]));
    assert_eq!(query_logs(&logs, &query(100, 0, Some("1.1.1.1"), None)), (4, vec![0, 2, 3, 5]));
    assert_eq!(query_logs(&logs, &query(100, 0, None, Some("942100"))), (3, vec![0, 4, 5]));
    assert_eq!(
        query_logs(&logs, &query(1, 1, Some("1.1.1.1"), Some("942100"))),
        (2, vec![5])
    );
    assert_eq!(query_logs(&logs, &query(100, 0, Some("9.9.9.9"), None)), (0, vec![]));
    assert_eq!(query_logs(&[], &query(100, 0, None, None)), (0, vec![]));
}

#[test]
fn custom_rules() {
    let mut rules: Vec<String> = vec![];
    assert_eq!(add_rule(&mut rules, "SecRule A".to_string()), Ok(0));
    assert_eq!(add_rule(&mut rules, "  SecRule B ".to_string()), Ok(1));
    assert_eq!(add_rule(&mut rules, "".to_string()), Err(RuleError::Empty));
    assert_eq!(add_rule(&mut rules, " \t\n".to_string()), Err(RuleError::Empty));
    assert_eq!(add_rule(&mut rules, "SecRule C".to_string()), Ok(2));
    assert_eq!(rules, vec!["SecRule A", "  SecRule B ", "SecRule C"]);
    assert_eq!(delete_rule(&mut rules, 3), None);
    assert_eq!(delete_rule(&mut rules, 0), Some("SecRule A".to_string()));
    assert_eq!(rules, vec!["  SecRule B ", "SecRule C"]);
    assert_eq!(delete_rule(&mut rules, 1), Some("SecRule C".to_string()));
    assert_eq!(delete_rule(&mut rules, 1), None);
}

#[test]
fn rates_in_thousandths() {
    assert_eq!(pass_rate(0, 0), 0);
    assert_eq!(pass_rate(5, 0), 0);
    assert_eq!(pass_rate(1, 2), 500);
    assert_eq!(pass_rate(1, 3), 333);
    assert_eq!(pass_rate(3, 3), 1000);
    assert_eq!(pass_rate(u64::MAX, 1), u64::MAX);
    assert_eq!(pass_rate(u64::MAX, u64::MAX), 1000);
    assert_eq!(requests_per_second(90, 60), 1500);
    assert_eq!(requests_per_second(90, 0), 0);
    let bots = bot_stats(7, 4, 3);
    assert_eq!(
        (bots.bots_detected, bots.challenges_issued, bots.challenges_solved, bots.challenge_pass_rate),
        (7, 4, 3, 750)
    );
    let scraping = scraping_stats(1, 2, 8, 2, 5);
    assert_eq!(
        (scraping.scrapers_blocked, scraping.traps_triggered, scraping.responses_obfuscated),
        (1, 2, 5)
    );
    assert_eq!((scraping.captchas_issued, scraping.captchas_solved), (8, 2));
    assert_eq!(scraping.captcha_pass_rate, 250);
    assert_eq!(scraping_stats(0, 0, 0, 0, 0).captcha_pass_rate, 0);
}

#[test]
fn request_types_hold_what_they_are_given() {
    let add = AddRuleRequest { rule: "SecRule".to_string() };
    assert_eq!(add.rule, "SecRule");
    let test = TestRuleRequest {
        rule: "SecRule".to_string(),
        request: TestRequestData {
            method: "GET".to_string(),
            uri: "/".to_string(),
            headers: vec![("a".to_string(), "b".to_string())],
            body: None,
        },
    };
    assert_eq!(test.request.headers.len(), 1);
    let stats = GeoIpStatsResponse {
        geoip_blocked: 1,
        geoip_lookups: 2,
        enabled: true,
        blocked_countries: vec!["CN".to_string()],
        allowed_countries: vec![],
    };
    assert_eq!(stats.geoip_lookups, 2);
}
