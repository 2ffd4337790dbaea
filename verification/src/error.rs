//! The errors of the firewall and the status each is answered with.

use crate::text::{decimal_of, decimal_text, string_of};
use vstd::prelude::*;
use vstd::string::StringExecFns;

verus! {

broadcast use vstd::string::group_string_axioms;

/// An error of the firewall.
#[derive(Debug, Clone)]
pub enum Layer7Error {
    /// The configuration is rejected.
    Config(String),
    /// The rule engine failed.
    WafEngine(String),
    /// The key sent too many requests.
    RateLimited(String),
    /// The address is on the blocklist.
    IpBlocked(String),
    /// The upstream could not be reached.
    Upstream(String),
    /// A rule refused the request.
    WafBlocked { status: u16, message: String },
    /// Reading or writing failed.
    Io(String),
    /// Data could not be written out or read in.
    Serde(String),
    /// Anything else.
    Other(String),
}

impl Layer7Error {
    /// The status that the client is answered with: 429 for the rate, 403
    /// for a blocked address, 502 for the upstream, the status of the rule
    /// for a refusal by a rule. The other errors have none: a failure of the
    /// rule engine lets the request pass, and the rest never reach a
    /// client.
    pub fn status(&self) -> (r: Option<u16>)
        ensures
            r == (match *self {
                Layer7Error::RateLimited(_) => Some(429u16),
                Layer7Error::IpBlocked(_) => Some(403u16),
                Layer7Error::Upstream(_) => Some(502u16),
                Layer7Error::WafBlocked { status, .. } => Some(status),
                _ => None,
            }),
    {
        match self {
            Layer7Error::RateLimited(_) => Some(429),
            Layer7Error::IpBlocked(_) => Some(403),
            Layer7Error::Upstream(_) => Some(502),
            Layer7Error::WafBlocked { status, .. } => Some(*status),
            _ => None,
        }
    }

    /// Whether the request goes on in spite of the error: only a failure of
    /// the rule engine lets it.
    pub fn fails_open(&self) -> (r: bool)
        ensures
            r == (*self is WafEngine),
    {
        match self {
            Layer7Error::WafEngine(_) => true,
            _ => false,
        }
    }

    /// The words before the detail of the error.
    pub open spec fn prefix(&self) -> Seq<char> {
        match *self {
            Layer7Error::Config(_) => "configuration error: "@,
            Layer7Error::WafEngine(_) => "WAF engine error: "@,
            Layer7Error::RateLimited(_) => "rate limit exceeded for key: "@,
            Layer7Error::IpBlocked(_) => "IP blocked: "@,
            Layer7Error::Upstream(_) => "upstream error: "@,
            Layer7Error::WafBlocked { status, .. } => "request blocked by WAF rule (status "@
                + decimal_text(status as nat) + "): "@,
            Layer7Error::Io(_) => "I/O error: "@,
            Layer7Error::Serde(_) => "serialization error: "@,
            Layer7Error::Other(_) => Seq::<char>::empty(),
        }
    }

    /// The detail of the error.
    pub open spec fn detail(&self) -> Seq<char> {
        match *self {
            Layer7Error::Config(m) => m@,
            Layer7Error::WafEngine(m) => m@,
            Layer7Error::RateLimited(m) => m@,
            Layer7Error::IpBlocked(m) => m@,
            Layer7Error::Upstream(m) => m@,
            Layer7Error::WafBlocked { message, .. } => message@,
            Layer7Error::Io(m) => m@,
            Layer7Error::Serde(m) => m@,
            Layer7Error::Other(m) => m@,
        }
    }

    /// The error in words.
    pub fn message(&self) -> (out: String)
        ensures
            out@ == self.prefix() + self.detail(),
    {
        let (prefix, detail) = match self {
            Layer7Error::Config(m) => ("configuration error: ", m),
            Layer7Error::WafEngine(m) => ("WAF engine error: ", m),
            Layer7Error::RateLimited(m) => ("rate limit exceeded for key: ", m),
            Layer7Error::IpBlocked(m) => ("IP blocked: ", m),
            Layer7Error::Upstream(m) => ("upstream error: ", m),
            Layer7Error::WafBlocked { status, message } => {
                let digits = decimal_of(*status as u64);
                let number = string_of(digits.as_slice());
                let mut out = "request blocked by WAF rule (status ".to_owned();
                out.append(number.as_str());
                out.append("): ");
                out.append(message.as_str());
                return out;
            },
            Layer7Error::Io(m) => ("I/O error: ", m),
            Layer7Error::Serde(m) => ("serialization error: ", m),
            Layer7Error::Other(m) => ("", m),
        };
        proof {
            reveal_strlit("");
        }
        let mut out = prefix.to_owned();
        out.append(detail.as_str());
        out
    }
}

} // verus!
