//! The composite bot score.
//!
//! A score is a fixed-point number in thousandths, from 0 (surely a person)
//! to 1000 (surely a bot).

use crate::fingerprint::{has_standard_accept, standard_accept, HttpFingerprint};
use crate::known_bots::BotPattern;
use vstd::prelude::*;

verus! {

/// The highest score: 1.0 in thousandths.
pub const SCORE_MAX: u32 = 1000;

/// What the class of the `User-Agent` alone contributes.
pub open spec fn base_score(pattern: BotPattern) -> int {
    match pattern {
        BotPattern::KnownGoodBot => 0,
        BotPattern::KnownBadBot => 900,
        BotPattern::Suspicious => 500,
        BotPattern::LikelyHuman => 100,
    }
}

/// `x` held within `0..=1000`.
pub open spec fn clamp_score(x: int) -> int {
    if x < 0 {
        0
    } else if x > 1000 {
        1000
    } else {
        x
    }
}

/// The bot score: the base for the class; 0.2 more where no standard
/// `Accept` header came and the client is no known good bot; 0.8 less where
/// a valid challenge cookie came; held within 0 and 1.
pub open spec fn bot_score_of(pattern: BotPattern, standard_accept: bool, valid_challenge: bool)
    -> int {
    clamp_score(
        base_score(pattern) + (if !standard_accept && pattern != BotPattern::KnownGoodBot {
            200int
        } else {
            0
        }) - (if valid_challenge {
            800int
        } else {
            0
        }),
    )
}

/// The bot score from the signals already extracted.
pub fn score_from_signals(pattern: BotPattern, standard_accept: bool, valid_challenge: bool) -> (r:
    u32)
    ensures
        r == bot_score_of(pattern, standard_accept, valid_challenge),
        r <= SCORE_MAX,
{
    let mut score: i32 = match pattern {
        BotPattern::KnownGoodBot => 0,
        BotPattern::KnownBadBot => 900,
        BotPattern::Suspicious => 500,
        BotPattern::LikelyHuman => 100,
    };
    let good = match pattern {
        BotPattern::KnownGoodBot => true,
        _ => false,
    };
    if !standard_accept && !good {
        score = score + 200;
    }
    if valid_challenge {
        score = score - 800;
    }
    if score < 0 {
        0
    } else if score > 1000 {
        1000
    } else {
        score as u32
    }
}

/// The composite bot score of a request, in thousandths. The fingerprint
/// takes no part in it.
pub fn compute_bot_score(
    _fingerprint: &HttpFingerprint,
    bot_pattern: BotPattern,
    has_valid_challenge: bool,
    headers: &[(String, String)],
) -> (r: u32)
    ensures
        r == bot_score_of(bot_pattern, standard_accept(headers@), has_valid_challenge),
        r <= SCORE_MAX,
{
    score_from_signals(bot_pattern, has_standard_accept(headers), has_valid_challenge)
}

} // verus!
