//! Passphrase strength, and the floor a new master passphrase must reach.
use passwords::{analyzer, scorer};
use vstd::prelude::*;

verus! {

/// The lowest score a new master passphrase may have.
pub const MIN_NEW_KEY_SCORE: i32 = 40;

/// The score, from 0 to 100, that the password analyzer gives a passphrase.
pub uninterp spec fn strength_of(passphrase: Seq<char>) -> int;

/// Relies on `passwords::analyzer::analyze` and `passwords::scorer::score`:
/// the score of the analysed passphrase, a function of its characters
/// alone, clamped by the scorer to 0..=100 and truncated to a whole number.
#[verifier::external_body]
fn analyzed_score(passphrase: &str) -> (r: i32)
    ensures
        r == strength_of(passphrase@),
        0 <= r <= 100,
{
    scorer::score(&analyzer::analyze(passphrase)) as i32
}

/// The whole-number strength score of a passphrase, from 0 to 100.
pub fn passphrase_score(passphrase: &str) -> (r: i32)
    ensures
        r == strength_of(passphrase@),
        0 <= r <= 100,
{
    analyzed_score(passphrase)
}

/// Is a passphrase of this score strong enough to become the master key?
pub fn meets_minimum(score: i32) -> (r: bool)
    ensures
        r == (score >= MIN_NEW_KEY_SCORE),
{
    score >= MIN_NEW_KEY_SCORE
}

/// Is this passphrase strong enough to become the master key?
pub fn acceptable_new_key(passphrase: &str) -> (r: bool)
    ensures
        r == (strength_of(passphrase@) >= MIN_NEW_KEY_SCORE),
{
    meets_minimum(analyzed_score(passphrase))
}

} // verus!
