//! The subscription requests clients send to the results server.
use vstd::prelude::*;

verus! {

/// A request to receive every team with its players, or to stop.
#[derive(Debug, Clone, Copy, PartialEq, Eq, Structural)]
pub struct SubTeam {
    pub toggle: bool,
}

/// A request to change the competitions a client follows.
#[derive(Debug, Clone)]
pub struct SubCompetition {
    pub sub_competition_ids: Option<Vec<u128>>,
    pub unsub_competition_ids: Option<Vec<u128>>,
    pub all: Option<bool>,
}

} // verus!
