//! The configuration of the firewall and the rules it must satisfy.
//!
//! Scores and score thresholds are fixed-point numbers in thousandths: 700
//! stands for 0.7. Paths of files are held as text; nothing here opens them.

use crate::text::{chars_of, starts_with};
use vstd::prelude::*;
use vstd::string::StringExecFns;

verus! {

broadcast use vstd::string::group_string_axioms;

/// The whole configuration.
#[derive(Debug, Clone)]
pub struct AppConfig {
    pub server: ServerConfig,
    pub upstreams: Vec<UpstreamConfig>,
    pub routes: Vec<RouteConfig>,
    pub waf: WafConfig,
    pub rate_limit: RateLimitConfig,
    pub ip_reputation: IpReputationConfig,
    pub bot_detection: BotDetectionConfig,
    pub anti_scraping: AntiScrapingConfig,
    pub geoip: GeoIpConfig,
}

#[derive(Debug, Clone)]
pub struct ServerConfig {
    pub listen: Vec<String>,
    pub tls: Option<TlsConfig>,
    pub admin: AdminConfig,
}

#[derive(Debug, Clone)]
pub struct TlsConfig {
    pub cert: String,
    pub key: String,
}

#[derive(Debug, Clone)]
pub struct AdminConfig {
    pub listen: String,
    pub dashboard: bool,
}

#[derive(Debug, Clone)]
pub struct UpstreamConfig {
    pub name: String,
    pub servers: Vec<UpstreamServer>,
    pub health_check: Option<HealthCheckConfig>,
}

#[derive(Debug, Clone)]
pub struct UpstreamServer {
    pub addr: String,
    pub weight: u32,
}

#[derive(Debug, Clone)]
pub struct HealthCheckConfig {
    pub interval_secs: u64,
    pub path: String,
}

#[derive(Debug, Clone)]
pub struct RouteConfig {
    /// The `Host` value the route is for; `None` matches every host.
    pub host: Option<String>,
    pub path_prefix: String,
    pub upstream: String,
    pub waf: RouteWafConfig,
    pub rate_limit: Option<RouteRateLimitConfig>,
}

#[derive(Debug, Clone, Copy)]
pub struct RouteWafConfig {
    pub enabled: bool,
    pub mode: WafMode,
}

#[derive(Debug, Clone, Copy, PartialEq, Eq, Structural)]
pub enum WafMode {
    Block,
    Detect,
    Off,
}

#[derive(Debug, Clone, Copy)]
pub struct RouteRateLimitConfig {
    pub rps: u64,
    pub burst: u64,
    pub algorithm: RateLimitAlgorithm,
}

#[derive(Debug, Clone, Copy, PartialEq, Eq, Structural)]
pub enum RateLimitAlgorithm {
    TokenBucket,
    SlidingWindow,
}

#[derive(Debug, Clone)]
pub struct WafConfig {
    pub rules: Vec<String>,
    pub request_body_limit: usize,
    pub audit_log: AuditLogConfig,
}

#[derive(Debug, Clone)]
pub struct AuditLogConfig {
    pub enabled: bool,
    pub path: String,
}

#[derive(Debug, Clone, Copy)]
pub struct RateLimitConfig {
    pub enabled: bool,
    pub default_rps: u64,
    pub default_burst: u64,
}

#[derive(Debug, Clone)]
pub struct IpReputationConfig {
    pub blocklist: Option<String>,
    pub allowlist: Option<String>,
}

#[derive(Debug, Clone)]
pub struct BotDetectionConfig {
    pub enabled: bool,
    pub mode: BotDetectionMode,
    pub js_challenge: JsChallengeConfig,
    /// In thousandths.
    pub score_threshold: u32,
    pub known_bots_allowlist: Vec<String>,
}

#[derive(Debug, Clone, Copy, PartialEq, Eq, Structural)]
pub enum BotDetectionMode {
    Block,
    Challenge,
    Detect,
}

#[derive(Debug, Clone)]
pub struct JsChallengeConfig {
    pub enabled: bool,
    pub difficulty: u32,
    pub ttl_secs: u64,
    pub secret: String,
}

#[derive(Debug, Clone)]
pub struct AntiScrapingConfig {
    pub enabled: bool,
    pub mode: AntiScrapingMode,
    pub captcha: CaptchaConfig,
    pub honeypot: HoneypotConfig,
    pub obfuscation: ObfuscationConfig,
    /// In thousandths.
    pub score_threshold: u32,
}

#[derive(Debug, Clone, Copy, PartialEq, Eq, Structural)]
pub enum AntiScrapingMode {
    Block,
    Challenge,
    Detect,
}

#[derive(Debug, Clone)]
pub struct CaptchaConfig {
    pub enabled: bool,
    pub ttl_secs: u64,
    pub secret: String,
}

#[derive(Debug, Clone)]
pub struct HoneypotConfig {
    pub enabled: bool,
    pub trap_path_prefix: String,
}

#[derive(Debug, Clone, Copy)]
pub struct ObfuscationConfig {
    pub enabled: bool,
}

#[derive(Debug, Clone)]
pub struct GeoIpConfig {
    pub enabled: bool,
    pub database_path: Option<String>,
    pub blocked_countries: Vec<String>,
    pub allowed_countries: Vec<String>,
    pub mode: GeoIpMode,
    pub default_action: GeoIpDefaultAction,
}

#[derive(Debug, Clone, Copy, PartialEq, Eq, Structural)]
pub enum GeoIpMode {
    Block,
    Detect,
}

#[derive(Debug, Clone, Copy, PartialEq, Eq, Structural)]
pub enum GeoIpDefaultAction {
    Allow,
    Block,
}

// ---------------------------------------------------------------------------
// Default values
// ---------------------------------------------------------------------------

pub fn default_admin_listen() -> (r: String)
    ensures
        r@ == "127.0.0.1:9090"@,
{
    "127.0.0.1:9090".to_owned()
}

pub fn default_true() -> (r: bool)
    ensures
        r,
{
    true
}

pub fn default_weight() -> (r: u32)
    ensures
        r == 1,
{
    1
}

pub fn default_health_interval() -> (r: u64)
    ensures
        r == 10,
{
    10
}

pub fn default_health_path() -> (r: String)
    ensures
        r@ == "/health"@,
{
    "/health".to_owned()
}

pub fn default_path_prefix() -> (r: String)
    ensures
        r@ == "/"@,
{
    "/".to_owned()
}

pub fn default_waf_mode() -> (r: WafMode)
    ensures
        r == WafMode::Block,
{
    WafMode::Block
}

pub fn default_rate_limit_algorithm() -> (r: RateLimitAlgorithm)
    ensures
        r == RateLimitAlgorithm::TokenBucket,
{
    RateLimitAlgorithm::TokenBucket
}

/// 12.5 MiB.
pub fn default_body_limit() -> (r: usize)
    ensures
        r == 13_107_200,
{
    13_107_200
}

pub fn default_audit_log_path() -> (r: String)
    ensures
        r@ == "/var/log/layer7waf/audit.log"@,
{
    "/var/log/layer7waf/audit.log".to_owned()
}

pub fn default_rps() -> (r: u64)
    ensures
        r == 100,
{
    100
}

pub fn default_burst() -> (r: u64)
    ensures
        r == 200,
{
    200
}

pub fn default_bot_detection_mode() -> (r: BotDetectionMode)
    ensures
        r == BotDetectionMode::Challenge,
{
    BotDetectionMode::Challenge
}

/// 0.7, in thousandths.
pub fn default_score_threshold() -> (r: u32)
    ensures
        r == 700,
{
    700
}

pub fn default_challenge_difficulty() -> (r: u32)
    ensures
        r == 16,
{
    16
}

pub fn default_challenge_ttl() -> (r: u64)
    ensures
        r == 3600,
{
    3600
}

pub fn default_anti_scraping_mode() -> (r: AntiScrapingMode)
    ensures
        r == AntiScrapingMode::Detect,
{
    AntiScrapingMode::Detect
}

/// 0.6, in thousandths.
pub fn default_scraping_score_threshold() -> (r: u32)
    ensures
        r == 600,
{
    600
}

pub fn default_captcha_ttl() -> (r: u64)
    ensures
        r == 1800,
{
    1800
}

pub fn default_trap_path_prefix() -> (r: String)
    ensures
        r@ == "/.well-known/l7w-trap"@,
{
    "/.well-known/l7w-trap".to_owned()
}

pub fn default_geoip_mode() -> (r: GeoIpMode)
    ensures
        r == GeoIpMode::Block,
{
    GeoIpMode::Block
}

pub fn default_geoip_default_action() -> (r: GeoIpDefaultAction)
    ensures
        r == GeoIpDefaultAction::Allow,
{
    GeoIpDefaultAction::Allow
}

/// The lower-case hexadecimal writing of `n`, without leading zeros.
pub open spec fn hex_text(n: nat) -> Seq<char>
    decreases n,
{
    if n < 16 {
        seq![crate::digest::hex_digit(n as int)]
    } else {
        hex_text(n / 16).push(crate::digest::hex_digit((n % 16) as int))
    }
}

/// The lower-case hexadecimal writing of `n`, without leading zeros.
pub fn hex_of(n: u128) -> (out: Vec<char>)
    ensures
        out@ == hex_text(n as nat),
    decreases n,
{
    let low = (n % 16) as u8;
    let digit = if low < 10 {
        (low + 48) as char
    } else {
        (low + 87) as char
    };
    if n < 16 {
        let mut out: Vec<char> = Vec::new();
        out.push(digit);
        proof {
            assert(out@ =~= seq![crate::digest::hex_digit(n as int)]);
        }
        out
    } else {
        let mut out = hex_of(n / 16);
        out.push(digit);
        out
    }
}

/// The secret that is made up where none is configured, from a reading of
/// the system clock in nanoseconds.
pub open spec fn secret_text(nanos: u128) -> Seq<char> {
    "l7w-"@ + hex_text(nanos as nat)
}

/// The secret made up from a reading of the system clock.
pub fn secret_from_time(nanos: u128) -> (r: String)
    ensures
        r@ == secret_text(nanos),
{
    let digits = hex_of(nanos);
    let mut out = "l7w-".to_owned();
    let text = crate::text::string_of(digits.as_slice());
    out.append(text.as_str());
    out
}

/// A secret for challenges and CAPTCHAs where none is configured: made up
/// from the time, so that it differs from one start to the next.
pub fn default_challenge_secret() -> (r: String)
    ensures
        exists|nanos: u128| r@ == secret_text(nanos),
{
    secret_from_time(crate::clock::unix_now_nanos())
}

impl Default for JsChallengeConfig {
    fn default() -> (r: Self)
        ensures
            r.enabled,
            r.difficulty == 16,
            r.ttl_secs == 3600,
            exists|nanos: u128| r.secret@ == secret_text(nanos),
    {
        JsChallengeConfig {
            enabled: true,
            difficulty: default_challenge_difficulty(),
            ttl_secs: default_challenge_ttl(),
            secret: default_challenge_secret(),
        }
    }
}

impl Default for CaptchaConfig {
    fn default() -> (r: Self)
        ensures
            r.enabled,
            r.ttl_secs == 1800,
            exists|nanos: u128| r.secret@ == secret_text(nanos),
    {
        CaptchaConfig { enabled: true, ttl_secs: default_captcha_ttl(), secret: default_challenge_secret() }
    }
}

impl Default for BotDetectionConfig {
    fn default() -> (r: Self)
        ensures
            !r.enabled,
            r.mode == BotDetectionMode::Challenge,
            r.js_challenge.enabled,
            r.js_challenge.difficulty == 16,
            r.js_challenge.ttl_secs == 3600,
            r.score_threshold == 700,
            r.known_bots_allowlist@.len() == 0,
    {
        BotDetectionConfig {
            enabled: false,
            mode: BotDetectionMode::Challenge,
            js_challenge: JsChallengeConfig::default(),
            score_threshold: default_score_threshold(),
            known_bots_allowlist: Vec::new(),
        }
    }
}

impl Default for AntiScrapingConfig {
    fn default() -> (r: Self)
        ensures
            !r.enabled,
            r.mode == AntiScrapingMode::Detect,
            r.captcha.enabled,
            r.captcha.ttl_secs == 1800,
            r.honeypot.enabled,
            r.honeypot.trap_path_prefix@ == "/.well-known/l7w-trap"@,
            !r.obfuscation.enabled,
            r.score_threshold == 600,
    {
        AntiScrapingConfig {
            enabled: false,
            mode: AntiScrapingMode::Detect,
            captcha: CaptchaConfig::default(),
            honeypot: HoneypotConfig::default(),
            obfuscation: ObfuscationConfig::default(),
            score_threshold: default_scraping_score_threshold(),
        }
    }
}

impl Default for AdminConfig {
    fn default() -> (r: Self)
        ensures
            r.listen@ == "127.0.0.1:9090"@,
            r.dashboard,
    {
        AdminConfig { listen: default_admin_listen(), dashboard: true }
    }
}

impl Default for RouteWafConfig {
    fn default() -> (r: Self)
        ensures
            r.enabled,
            r.mode == WafMode::Block,
    {
        RouteWafConfig { enabled: true, mode: WafMode::Block }
    }
}

impl Default for AuditLogConfig {
    fn default() -> (r: Self)
        ensures
            !r.enabled,
            r.path@ == "/var/log/layer7waf/audit.log"@,
    {
        AuditLogConfig { enabled: false, path: default_audit_log_path() }
    }
}

impl Default for RateLimitConfig {
    fn default() -> (r: Self)
        ensures
            !r.enabled,
            r.default_rps == 100,
            r.default_burst == 200,
    {
        RateLimitConfig { enabled: false, default_rps: default_rps(), default_burst: default_burst() }
    }
}

impl Default for IpReputationConfig {
    fn default() -> (r: Self)
        ensures
            r.blocklist is None,
            r.allowlist is None,
    {
        IpReputationConfig { blocklist: None, allowlist: None }
    }
}

impl Default for ObfuscationConfig {
    fn default() -> (r: Self)
        ensures
            !r.enabled,
    {
        ObfuscationConfig { enabled: false }
    }
}

impl Default for HoneypotConfig {
    fn default() -> (r: Self)
        ensures
            r.enabled,
            r.trap_path_prefix@ == "/.well-known/l7w-trap"@,
    {
        HoneypotConfig { enabled: true, trap_path_prefix: default_trap_path_prefix() }
    }
}

impl Default for GeoIpConfig {
    fn default() -> (r: Self)
        ensures
            !r.enabled,
            r.database_path is None,
            r.blocked_countries@.len() == 0,
            r.allowed_countries@.len() == 0,
            r.mode == GeoIpMode::Block,
            r.default_action == GeoIpDefaultAction::Allow,
    {
        GeoIpConfig {
            enabled: false,
            database_path: None,
            blocked_countries: Vec::new(),
            allowed_countries: Vec::new(),
            mode: GeoIpMode::Block,
            default_action: GeoIpDefaultAction::Allow,
        }
    }
}

// ---------------------------------------------------------------------------
// Validation
// ---------------------------------------------------------------------------

/// What is wrong with a configuration.
#[derive(Debug, Clone)]
pub enum ConfigError {
    /// The server listens on no address.
    NoListenAddress,
    /// The route at this index names an upstream that is not configured.
    UnknownUpstream { route: usize, upstream: String },
    /// The upstream at this index has no server.
    EmptyUpstream { upstream: usize, name: String },
}

impl ConfigError {
    /// The error in words.
    pub fn message(&self) -> (out: String)
        ensures
            self is NoListenAddress ==> out@ == "server.listen must have at least one address"@,
            self matches ConfigError::UnknownUpstream { upstream, .. } ==> out@
                == "route references unknown upstream '"@ + upstream@ + "'"@,
            self matches ConfigError::EmptyUpstream { name, .. } ==> out@ == "upstream '"@ + name@
                + "' has no servers"@,
    {
        match self {
            ConfigError::NoListenAddress => "server.listen must have at least one address".to_owned(),
            ConfigError::UnknownUpstream { upstream, .. } => {
                let mut out = "route references unknown upstream '".to_owned();
                out.append(upstream.as_str());
                out.append("'");
                out
            },
            ConfigError::EmptyUpstream { name, .. } => {
                let mut out = "upstream '".to_owned();
                out.append(name.as_str());
                out.append("' has no servers");
                out
            },
        }
    }
}

/// Some upstream is called `name`.
pub open spec fn names_upstream(upstreams: Seq<UpstreamConfig>, name: Seq<char>) -> bool {
    exists|i: int| 0 <= i < upstreams.len() && (#[trigger] upstreams[i]).name@ == name
}

/// The route at `i` is the first that names an upstream that is not
/// configured.
pub open spec fn first_unknown_route(config: AppConfig, i: int) -> bool {
    &&& 0 <= i < config.routes@.len()
    &&& !names_upstream(config.upstreams@, config.routes@[i].upstream@)
    &&& forall|k: int|
        0 <= k < i ==> names_upstream(config.upstreams@, (#[trigger] config.routes@[k]).upstream@)
}

/// The upstream at `i` is the first without a server.
pub open spec fn first_empty_upstream(config: AppConfig, i: int) -> bool {
    &&& 0 <= i < config.upstreams@.len()
    &&& config.upstreams@[i].servers@.len() == 0
    &&& forall|k: int| 0 <= k < i ==> (#[trigger] config.upstreams@[k]).servers@.len() > 0
}

/// The configuration is consistent: the server listens somewhere, every
/// route names an upstream that is configured, and every upstream has a
/// server.
pub open spec fn is_valid(config: AppConfig) -> bool {
    &&& config.server.listen@.len() > 0
    &&& forall|k: int|
        0 <= k < config.routes@.len() ==> names_upstream(
            config.upstreams@,
            (#[trigger] config.routes@[k]).upstream@,
        )
    &&& forall|k: int|
        0 <= k < config.upstreams@.len() ==> (#[trigger] config.upstreams@[k]).servers@.len() > 0
}

fn same_text(a: &str, b: &str) -> (r: bool)
    ensures
        r == (a@ == b@),
{
    let x = chars_of(a);
    let y = chars_of(b);
    let r = x.len() == y.len() && starts_with(x.as_slice(), y.as_slice());
    proof {
        if x@ == y@ {
            assert(y@.is_prefix_of(x@));
        }
        if r {
            assert(x@ =~= y@);
        }
    }
    r
}

fn upstream_exists(upstreams: &Vec<UpstreamConfig>, name: &str) -> (r: bool)
    ensures
        r == names_upstream(upstreams@, name@),
{
    let mut i: usize = 0;
    while i < upstreams.len()
        invariant
            i <= upstreams.len(),
            forall|k: int| 0 <= k < i ==> (#[trigger] upstreams@[k]).name@ != name@,
        decreases upstreams.len() - i,
    {
        if same_text(upstreams[i].name.as_str(), name) {
            return true;
        }
        i += 1;
    }
    false
}

impl AppConfig {
    /// Checks the configuration for consistency. The first fault found is
    /// reported: no listen address, then the first route with an unknown
    /// upstream, then the first upstream without a server.
    pub fn validate(&self) -> (r: Result<(), ConfigError>)
        ensures
            r is Ok <==> is_valid(*self),
            r matches Err(ConfigError::NoListenAddress) <==> self.server.listen@.len() == 0,
            r matches Err(ConfigError::UnknownUpstream { route, upstream }) ==> {
                &&& self.server.listen@.len() > 0
                &&& first_unknown_route(*self, route as int)
                &&& upstream@ == self.routes@[route as int].upstream@
            },
            r matches Err(ConfigError::EmptyUpstream { upstream, name }) ==> {
                &&& self.server.listen@.len() > 0
                &&& forall|k: int|
                    0 <= k < self.routes@.len() ==> names_upstream(
                        self.upstreams@,
                        (#[trigger] self.routes@[k]).upstream@,
                    )
                &&& first_empty_upstream(*self, upstream as int)
                &&& name@ == self.upstreams@[upstream as int].name@
            },
    {
        if self.server.listen.len() == 0 {
            return Err(ConfigError::NoListenAddress);
        }
        let mut i: usize = 0;
        while i < self.routes.len()
            invariant
                i <= self.routes.len(),
                self.server.listen@.len() > 0,
                forall|k: int|
                    0 <= k < i ==> names_upstream(
                        self.upstreams@,
                        (#[trigger] self.routes@[k]).upstream@,
                    ),
            decreases self.routes.len() - i,
        {
            if !upstream_exists(&self.upstreams, self.routes[i].upstream.as_str()) {
                proof {
                    assert(!names_upstream(self.upstreams@, self.routes@[i as int].upstream@));
                }
                return Err(
                    ConfigError::UnknownUpstream {
                        route: i,
                        upstream: self.routes[i].upstream.clone(),
                    },
                );
            }
            i += 1;
        }
        let mut j: usize = 0;
        while j < self.upstreams.len()
            invariant
                j <= self.upstreams.len(),
                self.server.listen@.len() > 0,
                forall|k: int|
                    0 <= k < self.routes@.len() ==> names_upstream(
                        self.upstreams@,
                        (#[trigger] self.routes@[k]).upstream@,
                    ),
                forall|k: int| 0 <= k < j ==> (#[trigger] self.upstreams@[k]).servers@.len() > 0,
            decreases self.upstreams.len() - j,
        {
            if self.upstreams[j].servers.len() == 0 {
                proof {
                    assert(self.upstreams@[j as int].servers@.len() == 0);
                }
                return Err(
                    ConfigError::EmptyUpstream { upstream: j, name: self.upstreams[j].name.clone() },
                );
            }
            j += 1;
        }
        Ok(())
    }
}

} // verus!
