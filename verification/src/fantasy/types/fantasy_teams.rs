//! Fantasy teams, their picks, and the picks that are active in the team.
use vstd::prelude::*;
use crate::timespan::DieselTimespan;

verus! {

/// A user's team in a league. `meta` is free-form JSON text.
#[derive(Debug, Clone)]
pub struct FantasyTeam {
    pub fantasy_team_id: u128,
    pub name: String,
    pub league_id: u128,
    pub external_user_id: u128,
    pub meta: String,
}

/// A partial change to a fantasy team; `None` leaves a field as it is.
#[derive(Debug, Clone)]
pub struct FantasyTeamUpdate {
    pub fantasy_team_id: u128,
    pub name: Option<String>,
    pub external_user_id: Option<u128>,
    pub meta: Option<String>,
}

/// A player taken by a fantasy team with one of its draft choices, belonging
/// to the team for `timespan`.
#[derive(Debug, Clone, Copy, PartialEq, Eq, Structural)]
pub struct Pick {
    pub pick_id: u128,
    pub fantasy_team_id: u128,
    pub draft_choice_id: u128,
    pub player_id: u128,
    pub timespan: DieselTimespan,
}

/// A client's request to pick a player in a draft.
#[derive(Debug, Clone, Copy, PartialEq, Eq, Structural)]
pub struct DraftPick {
    pub player_id: u128,
    pub fantasy_team_id: u128,
    pub draft_id: u128,
}

/// A change to the timespan of a pick.
#[derive(Debug, Clone, Copy, PartialEq, Eq, Structural)]
pub struct PickUpdate {
    pub pick_id: u128,
    pub timespan: DieselTimespan,
}

/// A pick that plays in the fantasy team (rather than sitting in the squad)
/// during `timespan`.
#[derive(Debug, Clone, Copy, PartialEq, Eq, Structural)]
pub struct ActivePick {
    pub active_pick_id: u128,
    pub pick_id: u128,
    pub timespan: DieselTimespan,
}

/// A change to the timespan of an active pick.
#[derive(Debug, Clone, Copy, PartialEq, Eq, Structural)]
pub struct ActivePickUpdate {
    pub active_pick_id: u128,
    pub timespan: DieselTimespan,
}

} // verus!
