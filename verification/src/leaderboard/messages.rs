//! The subscription requests clients send to the leaderboard server.
use vstd::prelude::*;

verus! {

/// A request to change the leagues a client follows.
#[derive(Debug, Clone)]
pub struct SubLeague {
    pub sub_league_ids: Option<Vec<u128>>,
    pub unsub_league_ids: Option<Vec<u128>>,
    pub all: Option<bool>,
}

/// A request to change the leaderboards a client follows.
#[derive(Debug, Clone)]
pub struct SubLeaderboard {
    pub sub_leaderboard_ids: Option<Vec<u128>>,
    pub unsub_leaderboard_ids: Option<Vec<u128>>,
    pub all: Option<bool>,
}

} // verus!
