//! Which players may be picked in a league period.
use vstd::prelude::*;

verus! {

/// `player_id` may be picked in `period_id`.
#[derive(Debug, Clone, Copy, PartialEq, Eq, Structural)]
pub struct ValidPlayer {
    pub period_id: u128,
    pub player_id: u128,
}

} // verus!
