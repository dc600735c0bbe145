//! Teams with their players, as the results server sends them.
use vstd::prelude::*;
use crate::timespan::DieselTimespan;

verus! {

/// A team with, optionally, its names over time and its players over time.
/// `meta` is free-form JSON text.
#[derive(Debug, Clone)]
pub struct ApiTeamWithPlayersHierarchy {
    pub team_id: u128,
    pub names: Option<Vec<ApiTeamName>>,
    pub meta: String,
    pub players: Option<Vec<ApiTeamPlayerOut>>,
}

/// A player's membership of a team during `timespan`.
#[derive(Debug, Clone)]
pub struct ApiTeamPlayerOut {
    pub team_id: u128,
    pub player: ApiPlayer,
    pub timespan: DieselTimespan,
}

/// A name a team carries during `timespan`.
#[derive(Debug, Clone)]
pub struct ApiTeamName {
    pub name: String,
    pub timespan: DieselTimespan,
}

/// A player with, optionally, names and positions over time.
#[derive(Debug, Clone)]
pub struct ApiPlayer {
    pub player_id: u128,
    pub meta: String,
    pub names: Option<Vec<ApiPlayerName>>,
    pub positions: Option<Vec<ApiPlayerPosition>>,
}

/// A name a player carries during `timespan`.
#[derive(Debug, Clone)]
pub struct ApiPlayerName {
    pub name: String,
    pub timespan: DieselTimespan,
}

/// A position a player plays during `timespan`.
#[derive(Debug, Clone)]
pub struct ApiPlayerPosition {
    pub position: String,
    pub timespan: DieselTimespan,
}

/// A message from the results server: the teams with players that a
/// subscription to teams delivers.
#[derive(Debug, Clone)]
pub enum ResultMsgs {
    SubTeam { message_id: u128, data: Vec<ApiTeamWithPlayersHierarchy>, mode: String },
}

} // verus!
