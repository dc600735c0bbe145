//! Results of teams and players in matches and series. `meta` and a
//! player's `result` are free-form JSON text.
use vstd::prelude::*;

verus! {

/// A team's result in a match.
#[derive(Debug, Clone)]
pub struct TeamMatchResult {
    pub team_id: u128,
    pub match_id: u128,
    pub result: Option<String>,
    pub meta: String,
}

/// A partial change to a team's match result; `None` leaves a field as it is.
#[derive(Debug, Clone)]
pub struct TeamMatchResultUpdate {
    pub team_id: u128,
    pub match_id: u128,
    pub result: Option<String>,
    pub meta: Option<String>,
}

/// A team's result in a series.
#[derive(Debug, Clone)]
pub struct TeamSeriesResult {
    pub team_id: u128,
    pub series_id: u128,
    pub result: Option<String>,
    pub meta: String,
}

/// A partial change to a team's series result; `None` leaves a field as it is.
#[derive(Debug, Clone)]
pub struct TeamSeriesResultUpdate {
    pub team_id: u128,
    pub series_id: u128,
    pub result: Option<String>,
    pub meta: Option<String>,
}

/// A player's result in a match.
#[derive(Debug, Clone)]
pub struct PlayerResult {
    pub player_id: u128,
    pub match_id: u128,
    pub result: Option<String>,
    pub meta: String,
}

/// A partial change to a player's match result; `None` leaves a field as it is.
#[derive(Debug, Clone)]
pub struct PlayerResultUpdate {
    pub player_id: u128,
    pub match_id: u128,
    pub result: Option<String>,
    pub meta: Option<String>,
}

} // verus!
