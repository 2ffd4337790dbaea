use layer7waf::config::{
    default_challenge_secret, hex_of, secret_from_time, default_admin_listen, default_anti_scraping_mode, default_audit_log_path, default_body_limit,
    default_bot_detection_mode, default_burst, default_captcha_ttl, default_challenge_difficulty,
    default_challenge_ttl, default_geoip_default_action, default_geoip_mode,
    default_health_interval, default_health_path, default_path_prefix,
    default_rate_limit_algorithm, default_rps, default_scraping_score_threshold,
    default_score_threshold, default_trap_path_prefix, default_true, default_waf_mode,
    default_weight, AdminConfig, AntiScrapingConfig, AntiScrapingMode, AppConfig, AuditLogConfig,
    BotDetectionConfig, BotDetectionMode, CaptchaConfig, ConfigError, GeoIpConfig,
    GeoIpDefaultAction, GeoIpMode, HoneypotConfig, IpReputationConfig, JsChallengeConfig,
    ObfuscationConfig, RateLimitAlgorithm, RateLimitConfig, RouteConfig, RouteWafConfig,
    ServerConfig, UpstreamConfig, UpstreamServer, WafConfig, WafMode,
};
use layer7waf::error::Layer7Error;

fn route(upstream: &str) -> RouteConfig {
    RouteConfig {
        host: None,
        path_prefix: "/".to_string(),
        upstream: upstream.to_string(),
        waf: RouteWafConfig::default(),
        rate_limit: None,
    }
}

fn upstream(name: &str, servers: usize) -> UpstreamConfig {
    UpstreamConfig {
        name: name.to_string(),
        servers: (0..servers)
            .map(|i| UpstreamServer { addr: format!("10.0.0.{i}:80"), weight: 1 })
            .collect(),
        health_check: None,
    }
}

fn config(listen: usize, routes: Vec<RouteConfig>, upstreams: Vec<UpstreamConfig>) -> AppConfig {
    AppConfig {
        server: ServerConfig {
            listen: (0..listen).map(|i| format!("0.0.0.0:{}", 8000 + i)).collect(),
            tls: None,
            admin: AdminConfig::default(),
        },
        upstreams,
        routes,
        waf: WafConfig {
            rules: vec![],
            request_body_limit: default_body_limit(),
            audit_log: AuditLogConfig::default(),
        },
        rate_limit: RateLimitConfig::default(),
        ip_reputation: IpReputationConfig::default(),
        bot_detection: BotDetectionConfig {
            enabled: false,
            mode: default_bot_detection_mode(),
            js_challenge: JsChallengeConfig {
                enabled: true,
                difficulty: default_challenge_difficulty(),
                ttl_secs: default_challenge_ttl(),
                secret: "s".to_string(),
            },
            score_threshold: default_score_threshold(),
            known_bots_allowlist: vec![],
        },
        anti_scraping: AntiScrapingConfig {
            enabled: false,
            mode: default_anti_scraping_mode(),
            captcha: CaptchaConfig { enabled: true, ttl_secs: default_captcha_ttl(), secret: "s".to_string() },
            honeypot: HoneypotConfig::default(),
            obfuscation: ObfuscationConfig::default(),
            score_threshold: default_scraping_score_threshold(),
        },
        geoip: GeoIpConfig::default(),
    }
}

#[test]
fn default_values() {
    assert_eq!(default_admin_listen(), "127.0.0.1:9090");
    assert!(default_true());
    assert_eq!(default_weight(), 1);
    assert_eq!(default_health_interval(), 10);
    assert_eq!(default_health_path(), "/health");
    assert_eq!(default_path_prefix(), "/");
    assert_eq!(default_waf_mode(), WafMode::Block);
    assert_eq!(default_rate_limit_algorithm(), RateLimitAlgorithm::TokenBucket);
    assert_eq!(default_body_limit(), 13_107_200);
    assert_eq!(default_audit_log_path(), "/var/log/layer7waf/audit.log");
    assert_eq!(default_rps(), 100);
    assert_eq!(default_burst(), 200);
    assert_eq!(default_bot_detection_mode(), BotDetectionMode::Challenge);
    assert_eq!(default_score_threshold(), 700);
    assert_eq!(default_challenge_difficulty(), 16);
    assert_eq!(default_challenge_ttl(), 3600);
    assert_eq!(default_anti_scraping_mode(), AntiScrapingMode::Detect);
    assert_eq!(default_scraping_score_threshold(), 600);
    assert_eq!(default_captcha_ttl(), 1800);
    assert_eq!(default_trap_path_prefix(), "/.well-known/l7w-trap");
    assert_eq!(default_geoip_mode(), GeoIpMode::Block);
    assert_eq!(default_geoip_default_action(), GeoIpDefaultAction::Allow);
}

#[test]
fn default_structs() {
    let admin = AdminConfig::default();
    assert_eq!((admin.listen.as_str(), admin.dashboard), ("127.0.0.1:9090", true));
    let waf = RouteWafConfig::default();
    assert!(waf.enabled);
    assert_eq!(waf.mode, WafMode::Block);
    let audit = AuditLogConfig::default();
    assert!(!audit.enabled);
    assert_eq!(audit.path, "/var/log/layer7waf/audit.log");
    let rate = RateLimitConfig::default();
    assert_eq!((rate.enabled, rate.default_rps, rate.default_burst), (false, 100, 200));
    let rep = IpReputationConfig::default();
    assert!(rep.blocklist.is_none() && rep.allowlist.is_none());
    assert!(!ObfuscationConfig::default().enabled);
    let honeypot = HoneypotConfig::default();
    assert!(honeypot.enabled);
    assert_eq!(honeypot.trap_path_prefix, "/.well-known/l7w-trap");
    let geo = GeoIpConfig::default();
    assert!(!geo.enabled && geo.database_path.is_none());
    assert!(geo.blocked_countries.is_empty() && geo.allowed_countries.is_empty());
    assert_eq!((geo.mode, geo.default_action), (GeoIpMode::Block, GeoIpDefaultAction::Allow));
}

#[test]
fn a_consistent_configuration_is_valid() {
    let c = config(1, vec![route("a"), route("b"), route("a")], vec![upstream("a", 1), upstream("b", 2)]);
    assert!(c.validate().is_ok());
    assert!(config(1, vec![], vec![]).validate().is_ok());
    assert!(config(2, vec![], vec![upstream("unused", 1)]).validate().is_ok());
}

#[test]
fn the_first_fault_is_reported() {
    // No listen address comes first, whatever else is wrong.
    let c = config(0, vec![route("nope")], vec![upstream("a", 0)]);
    match c.validate() {
        Err(e @ ConfigError::NoListenAddress) => {
            assert_eq!(e.message(), "server.listen must have at least one address")
        }
        other => panic!("{:?}", other),
    }
    // Then the first route with an unknown upstream.
    let c = config(
        1,
        vec![route("a"), route("x"), route("y")],
        vec![upstream("a", 0), upstream("A", 1)],
    );
    match c.validate() {
        Err(ConfigError::UnknownUpstream { route, upstream }) => {
            assert_eq!((route, upstream.as_str()), (1, "x"));
            assert_eq!(
                ConfigError::UnknownUpstream { route, upstream }.message(),
                "route references unknown upstream 'x'"
            );
        }
        other => panic!("{:?}", other),
    }
    // Then the first upstream without a server.
    let c = config(1, vec![route("b")], vec![upstream("a", 1), upstream("b", 0), upstream("c", 0)]);
    match c.validate() {
        Err(ConfigError::EmptyUpstream { upstream, name }) => {
            assert_eq!((upstream, name.as_str()), (1, "b"));
            assert_eq!(
                ConfigError::EmptyUpstream { upstream, name }.message(),
                "upstream 'b' has no servers"
            );
        }
        other => panic!("{:?}", other),
    }
}

#[test]
fn errors_and_their_statuses() {
    let cases: Vec<(Layer7Error, Option<u16>, &str, bool)> = vec![
        (Layer7Error::Config("bad".into()), None, "configuration error: bad", false),
        (Layer7Error::WafEngine("down".into()), None, "WAF engine error: down", true),
        (Layer7Error::RateLimited("k".into()), Some(429), "rate limit exceeded for key: k", false),
        (Layer7Error::IpBlocked("1.2.3.4".into()), Some(403), "IP blocked: 1.2.3.4", false),
        (Layer7Error::Upstream("refused".into()), Some(502), "upstream error: refused", false),
        (
            Layer7Error::WafBlocked { status: 406, message: "rule 949110".into() },
            Some(406),
            "request blocked by WAF rule (status 406): rule 949110",
            false,
        ),
        (Layer7Error::Io("eof".into()), None, "I/O error: eof", false),
        (Layer7Error::Serde("bad json".into()), None, "serialization error: bad json", false),
        (Layer7Error::Other("else".into()), None, "else", false),
    ];
    for (e, status, message, open) in cases {
        assert_eq!(e.status(), status);
        assert_eq!(e.message(), message);
        assert_eq!(e.fails_open(), open);
    }
}

#[test]
fn made_up_secret() {
    assert_eq!(secret_from_time(0), "l7w-0");
    assert_eq!(secret_from_time(255), "l7w-ff");
    assert_eq!(secret_from_time(0x17a3b5c7d9e0f123), "l7w-17a3b5c7d9e0f123");
    assert_eq!(secret_from_time(u128::MAX), format!("l7w-{:x}", u128::MAX));
    for n in [0u128, 9, 10, 15, 16, 4096, 1 << 100] {
        assert_eq!(hex_of(n).into_iter().collect::<String>(), format!("{:x}", n));
    }
    let secret = default_challenge_secret();
    assert!(secret.starts_with("l7w-"));
    assert!(secret.len() > 4);
    assert!(secret[4..].chars().all(|c| c.is_ascii_hexdigit() && !c.is_ascii_uppercase()));
}

#[test]
fn defaults_of_the_detectors() {
    let bot = BotDetectionConfig::default();
    assert!(!bot.enabled);
    assert_eq!((bot.mode, bot.score_threshold), (BotDetectionMode::Challenge, 700));
    assert!(bot.known_bots_allowlist.is_empty());
    let js = JsChallengeConfig::default();
    assert_eq!((js.enabled, js.difficulty, js.ttl_secs), (true, 16, 3600));
    assert!(js.secret.starts_with("l7w-"));
    let scraping = AntiScrapingConfig::default();
    assert!(!scraping.enabled);
    assert_eq!((scraping.mode, scraping.score_threshold), (AntiScrapingMode::Detect, 600));
    assert!(scraping.honeypot.enabled && !scraping.obfuscation.enabled);
    let captcha = CaptchaConfig::default();
    assert_eq!((captcha.enabled, captcha.ttl_secs), (true, 1800));
    assert!(captcha.secret.starts_with("l7w-"));
}
