//! Request-decision pipeline of a layer-7 web application firewall, with the
//! data-plane primitives it is built from.
//!
//! The primitives, leaves first:
//!
//! - [`trie`] and [`ip_reputation`]: networks in a binary prefix trie, and
//!   the blocklist and allowlist made of them;
//! - [`token_bucket`], [`sliding_window`] and [`rate_limit`]: rate limiting
//!   by key;
//! - [`fingerprint`], [`known_bots`], [`score`], [`js_challenge`] and
//!   [`bot_detect`]: bot detection with a proof-of-work challenge;
//! - [`session`], [`honeypot`], [`captcha`], [`obfuscation`] and
//!   [`anti_scraping`]: detection of scraping, with trap links, CAPTCHAs and
//!   watermarks;
//! - [`pipeline`]: the order of the filters and what each answer does to a
//!   request.
//!
//! Scores are fixed-point numbers in thousandths. Time is always an argument:
//! every function that reads a clock has a twin, named `_at`, that takes the
//! reading and whose contract says exactly what it returns. State that is
//! kept for each client lives in concurrent maps; the functions that change
//! it take the map by exclusive reference, and their contracts say what the
//! map holds afterwards.
//!
//! The rule engine, the country database, the HTTP runtime and all reading
//! of files are outside this crate: the functions here take what those give
//! as plain values.

pub mod admin;
pub mod anti_scraping;
pub mod bits;
pub mod bot_detect;
pub mod captcha;
pub mod clock;
pub mod config;
pub mod context;
pub mod digest;
pub mod error;
pub mod fingerprint;
pub mod geoip;
pub mod honeypot;
pub mod ip_reputation;
pub mod js_challenge;
pub mod keyed;
pub mod known_bots;
pub mod obfuscation;
pub mod pipeline;
pub mod random;
pub mod rate_limit;
pub mod score;
pub mod session;
pub mod sliding_window;
pub mod text;
pub mod token_bucket;
pub mod trie;
pub mod upstream;
pub mod waf;
