//! Leagues and what belongs to them: periods, stat multipliers and
//! per-position limits.
//!
//! Multipliers are decimal numbers on the wire; the library only carries them
//! and holds each as the bit pattern of its 32-bit IEEE-754 value.
use vstd::prelude::*;
use crate::timespan::{DieselTimespan, Timestamp, new_dieseltimespan};
use crate::fantasy::types::fantasy_teams::FantasyTeam;
use crate::ids::new_v4;
use crate::clock::now;

verus! {

/// A league. `meta` is free-form JSON text.
#[derive(Debug, Clone)]
pub struct League {
    pub league_id: u128,
    pub name: String,
    pub team_size: i32,
    pub squad_size: i32,
    pub competition_id: u128,
    pub meta: String,
    pub max_squad_players_same_team: i32,
    pub max_squad_players_same_position: i32,
    pub max_team_players_same_team: i32,
    pub max_team_players_same_position: i32,
}

/// A partial change to a league; `None` leaves a field as it is.
#[derive(Debug, Clone)]
pub struct LeagueUpdate {
    pub league_id: u128,
    pub name: Option<String>,
    pub meta: Option<String>,
    pub team_size: Option<i32>,
    pub squad_size: Option<i32>,
    pub competition_id: Option<u128>,
    pub max_squad_players_same_team: Option<i32>,
    pub max_team_players_same_team: Option<i32>,
}

/// How many players of one position a team and a squad may hold.
#[derive(Debug, Clone)]
pub struct MaxPlayersPerPosition {
    pub league_id: u128,
    pub position: String,
    pub team_max: i32,
    pub squad_max: i32,
}

/// How much one kind of stat counts in a league. `multiplier` is the bit
/// pattern of a 32-bit float.
#[derive(Debug, Clone)]
pub struct StatMultiplier {
    pub league_id: u128,
    pub name: String,
    pub multiplier: u32,
    pub meta: String,
}

/// A partial change to a stat multiplier; `None` leaves a field as it is.
#[derive(Debug, Clone)]
pub struct StatMultiplierUpdate {
    pub league_id: u128,
    pub name: String,
    pub multiplier: Option<u32>,
    pub meta: Option<String>,
}

/// A stretch of a league's season with its own draft. `points_multiplier` is
/// the bit pattern of a 32-bit float.
#[derive(Debug, Clone)]
pub struct Period {
    pub period_id: u128,
    pub league_id: u128,
    pub name: String,
    pub timespan: DieselTimespan,
    pub meta: String,
    pub points_multiplier: u32,
    pub teams_per_draft: i32,
    pub draft_interval_secs: i32,
    pub draft_start: Timestamp,
    pub draft_lockdown: Timestamp,
}

impl Period {
    /// A sample period named `Test`: fresh identifiers, times read from the
    /// clock, an empty JSON object as metadata, a multiplier of one, five
    /// teams per draft and ten seconds per turn.
    pub fn test() -> (p: Period)
        ensures
            p.name@ == "Test"@,
            p.meta@ == "{}"@,
            p.points_multiplier == 0x3f80_0000u32,
            p.teams_per_draft == 5,
            p.draft_interval_secs == 10,
            p.timespan.0 is Included,
            p.timespan.1 is Excluded,
            crate::ids::is_v4(p.period_id),
            crate::ids::is_v4(p.league_id),
            p.draft_start.wf(),
            p.draft_lockdown.wf(),
    {
        let period_id = new_v4();
        let league_id = new_v4();
        let start = now();
        let end = now();
        Period {
            period_id,
            league_id,
            name: String::from_str("Test"),
            timespan: new_dieseltimespan(start, end),
            meta: String::from_str("{}"),
            points_multiplier: 0x3f80_0000u32,
            teams_per_draft: 5,
            draft_interval_secs: 10,
            draft_start: now(),
            draft_lockdown: now(),
        }
    }
}

/// A partial change to a period; `None` leaves a field as it is.
#[derive(Debug, Clone)]
pub struct PeriodUpdate {
    pub period_id: u128,
    pub name: Option<String>,
    pub timespan: Option<DieselTimespan>,
    pub meta: Option<String>,
    pub points_multiplier: Option<u32>,
    pub teams_per_draft: Option<i32>,
    pub draft_interval_secs: Option<i32>,
    pub draft_start: Option<Timestamp>,
    pub draft_lockdown: Option<Timestamp>,
}

/// A league as the clients see it, with, optionally, what belongs to it.
#[derive(Debug, Clone)]
pub struct ApiLeague {
    pub league_id: u128,
    pub name: String,
    pub team_size: i32,
    pub squad_size: i32,
    pub competition_id: u128,
    pub meta: String,
    pub max_squad_players_same_team: i32,
    pub max_team_players_same_team: i32,
    pub periods: Option<Vec<Period>>,
    pub stat_multipliers: Option<Vec<StatMultiplier>>,
    pub fantasy_teams: Option<Vec<FantasyTeam>>,
    pub max_players_per_position: Option<Vec<MaxPlayersPerPosition>>,
}

/// A league with what belongs to it, as the database loads it.
pub type LeagueRow = (League, Vec<Period>, Vec<StatMultiplier>, Vec<MaxPlayersPerPosition>, Vec<FantasyTeam>);

/// The client view of a league with the given parts.
pub open spec fn api_league(
    l: League,
    periods: Option<Vec<Period>>,
    stat_multipliers: Option<Vec<StatMultiplier>>,
    max_players_per_position: Option<Vec<MaxPlayersPerPosition>>,
    fantasy_teams: Option<Vec<FantasyTeam>>,
) -> ApiLeague {
    ApiLeague {
        league_id: l.league_id,
        name: l.name,
        team_size: l.team_size,
        squad_size: l.squad_size,
        competition_id: l.competition_id,
        meta: l.meta,
        max_squad_players_same_team: l.max_squad_players_same_team,
        max_team_players_same_team: l.max_team_players_same_team,
        periods,
        stat_multipliers,
        fantasy_teams,
        max_players_per_position,
    }
}

/// The client view of a loaded league row, with all its parts.
pub open spec fn api_league_of_row(row: LeagueRow) -> ApiLeague {
    api_league(row.0, Some(row.1), Some(row.2), Some(row.3), Some(row.4))
}

impl ApiLeague {
    /// The client view of each loaded league row, in order.
    pub fn from_rows(rows: Vec<LeagueRow>) -> (out: Vec<ApiLeague>)
        ensures
            out@.len() == rows@.len(),
            forall|i: int| 0 <= i < rows@.len() ==> out@[i] == api_league_of_row(#[trigger] rows@[i]),
    {
        let ghost src = rows@;
        let mut out: Vec<ApiLeague> = Vec::new();
        for row in it: rows.into_iter()
            invariant
                it.seq() == src,
                out@.len() == it.index(),
                forall|k: int| 0 <= k < it.index() ==> out@[k] == api_league_of_row(#[trigger] src[k]),
        {
            let (l, periods, stats, max_players_per_position, fantasy_teams) = row;
            out.push(ApiLeague {
                periods: Some(periods),
                stat_multipliers: Some(stats),
                fantasy_teams: Some(fantasy_teams),
                max_players_per_position: Some(max_players_per_position),
                league_id: l.league_id,
                name: l.name,
                team_size: l.team_size,
                squad_size: l.squad_size,
                competition_id: l.competition_id,
                meta: l.meta,
                max_squad_players_same_team: l.max_squad_players_same_team,
                max_team_players_same_team: l.max_team_players_same_team,
            });
        }
        out
    }

    /// The client view of each league alone, in order, with none of its parts.
    pub fn from_leagues(leagues: Vec<League>) -> (out: Vec<ApiLeague>)
        ensures
            out@.len() == leagues@.len(),
            forall|i: int| 0 <= i < leagues@.len() ==> out@[i] == api_league(#[trigger] leagues@[i], None, None, None, None),
    {
        let ghost src = leagues@;
        let mut out: Vec<ApiLeague> = Vec::new();
        for l in it: leagues.into_iter()
            invariant
                it.seq() == src,
                out@.len() == it.index(),
                forall|k: int| 0 <= k < it.index() ==> out@[k] == api_league(#[trigger] src[k], None, None, None, None),
        {
            out.push(ApiLeague {
                fantasy_teams: None,
                periods: None,
                stat_multipliers: None,
                max_players_per_position: None,
                league_id: l.league_id,
                name: l.name,
                team_size: l.team_size,
                squad_size: l.squad_size,
                competition_id: l.competition_id,
                meta: l.meta,
                max_squad_players_same_team: l.max_squad_players_same_team,
                max_team_players_same_team: l.max_team_players_same_team,
            });
        }
        out
    }
}

} // verus!
