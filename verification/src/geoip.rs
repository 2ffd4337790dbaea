//! Filtering by country. The lookup of the country of an address is a
//! collaborator outside this crate; here is what is decided once the
//! country is known, or known to be unknown.

use crate::config::{GeoIpConfig, GeoIpDefaultAction, GeoIpMode};
use crate::text::{chars_of, starts_with};
use vstd::prelude::*;

verus! {

broadcast use vstd::string::group_string_axioms;

/// What `str::to_uppercase` returns for a text: the Unicode upper-case
/// mapping of std, which has no short closed form.
pub uninterp spec fn uppercase(s: Seq<char>) -> Seq<char>;

/// `str::to_uppercase`, whose result is known only by the name
/// [`uppercase`].
pub assume_specification[ str::to_uppercase ](s: &str) -> (out: String)
    ensures
        out@ == uppercase(s@),
;

/// What the filter says of a request.
#[derive(Debug, Clone, PartialEq, Eq)]
pub enum GeoIpAction {
    /// The request goes on.
    Allow,
    /// The request is refused because of its country.
    Block { country: String },
    /// The request goes on and its country is noted.
    Detect { country: String },
    /// The country is not known, and the request goes on.
    Unknown,
}

/// A country is on a list, whatever the case of either is written in.
pub open spec fn lists_country(list: Seq<String>, country: Seq<char>) -> bool {
    exists|i: int| 0 <= i < list.len() && uppercase((#[trigger] list[i])@) == uppercase(country)
}

/// What is decided of a request, by four flags and the country:
/// `(allowed, refused, noted, country)`.
///
/// An unknown country is refused only where the default action is to
/// block and the mode is `Block`; its name is then `unknown`. With an
/// allowlist, a country passes exactly when it is listed, and the
/// blocklist is not asked. Without one, a country on the blocklist does
/// not pass. A country that does not pass is refused in `Block` mode and
/// noted in `Detect` mode.
pub open spec fn decision_of(config: GeoIpConfig, country: Option<Seq<char>>) -> (
    bool,
    bool,
    bool,
    Seq<char>,
) {
    match country {
        None => if config.default_action == GeoIpDefaultAction::Block && config.mode
            == GeoIpMode::Block {
            (false, true, false, "unknown"@)
        } else {
            (false, false, false, Seq::<char>::empty())
        },
        Some(c) => {
            let passes = if config.allowed_countries@.len() > 0 {
                lists_country(config.allowed_countries@, c)
            } else {
                !lists_country(config.blocked_countries@, c)
            };
            if passes {
                (true, false, false, c)
            } else if config.mode == GeoIpMode::Block {
                (false, true, false, c)
            } else {
                (false, false, true, c)
            }
        },
    }
}

/// The action says what the four flags say.
pub open spec fn action_matches(action: GeoIpAction, decision: (bool, bool, bool, Seq<char>))
    -> bool {
    if decision.0 {
        action is Allow
    } else if decision.1 {
        action matches GeoIpAction::Block { country } && country@ == decision.3
    } else if decision.2 {
        action matches GeoIpAction::Detect { country } && country@ == decision.3
    } else {
        action is Unknown
    }
}

fn is_listed(list: &Vec<String>, country: &str) -> (r: bool)
    ensures
        r == lists_country(list@, country@),
{
    let wanted = country.to_uppercase();
    let wanted_chars = chars_of(wanted.as_str());
    let mut i: usize = 0;
    while i < list.len()
        invariant
            i <= list.len(),
            wanted_chars@ == uppercase(country@),
            forall|k: int| 0 <= k < i ==> uppercase((#[trigger] list@[k])@) != uppercase(country@),
        decreases list.len() - i,
    {
        let entry = list[i].as_str().to_uppercase();
        let entry_chars = chars_of(entry.as_str());
        let same = entry_chars.len() == wanted_chars.len() && starts_with(
            entry_chars.as_slice(),
            wanted_chars.as_slice(),
        );
        proof {
            if entry_chars@ == wanted_chars@ {
                assert(wanted_chars@.is_prefix_of(entry_chars@));
            }
            if same {
                assert(entry_chars@ =~= wanted_chars@);
            }
        }
        if same {
            return true;
        }
        i += 1;
    }
    false
}

/// Decides what to do with a request from `country`, or with one whose
/// country is not known.
pub fn decide(config: &GeoIpConfig, country: Option<String>) -> (action: GeoIpAction)
    ensures
        action_matches(
            action,
            decision_of(
                *config,
                match country {
                    Some(c) => Some(c@),
                    None => None,
                },
            ),
        ),
{
    let blocking = match config.mode {
        GeoIpMode::Block => true,
        GeoIpMode::Detect => false,
    };
    let country = match country {
        Some(c) => c,
        None => {
            let refuse = match config.default_action {
                GeoIpDefaultAction::Block => blocking,
                GeoIpDefaultAction::Allow => false,
            };
            return if refuse {
                GeoIpAction::Block { country: "unknown".to_owned() }
            } else {
                GeoIpAction::Unknown
            };
        },
    };
    let passes = if config.allowed_countries.len() > 0 {
        is_listed(&config.allowed_countries, country.as_str())
    } else {
        !is_listed(&config.blocked_countries, country.as_str())
    };
    if passes {
        GeoIpAction::Allow
    } else if blocking {
        GeoIpAction::Block { country }
    } else {
        GeoIpAction::Detect { country }
    }
}

} // verus!
