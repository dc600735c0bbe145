//! Checking a change of active picks: the picks must come from one league,
//! the player caches must be loaded, and every updated team must keep to the
//! league's limits.
use vstd::prelude::*;
use std::collections::HashMap;
use crate::fantasy::errors::{InvalidInputError, CustomError, InvalidTeamError};
use crate::fantasy::position_map::PositionMap;
use crate::fantasy::types::leagues::{League, MaxPlayersPerPosition};
use crate::fantasy::drafting::{VecUuid, verify_teams, teams_verdict};

verus! {

/// Why a change of active picks is refused.
#[derive(Debug, Clone)]
pub enum ActivePicksError<'a> {
    Input(InvalidInputError<'a>),
    Custom(CustomError<'a>),
    Team(InvalidTeamError),
}

impl<'a> ActivePicksError<'a> {
    /// The text shown for the error.
    pub fn to_string(&self) -> (s: String)
        ensures
            s@ == match self {
                ActivePicksError::Input(e) => "Invalid input: "@ + e.description@,
                ActivePicksError::Custom(e) => "Error: "@ + e.description@,
                ActivePicksError::Team(e) => "Invalid team: "@ + e.description@,
            },
    {
        match self {
            ActivePicksError::Input(e) => e.to_string(),
            ActivePicksError::Custom(e) => e.to_string(),
            ActivePicksError::Team(e) => e.to_string(),
        }
    }
}

/// The league the picks belong to, given the leagues found for them: there
/// must be exactly one.
pub fn league_for_active_picks<'l>(leagues: &'l Vec<League>) -> (r: Result<&'l League, InvalidInputError<'static>>)
    ensures
        leagues@.len() == 1 ==> (r matches Ok(l) && *l == leagues@[0]),
        leagues@.len() > 1 ==> (r matches Err(e) && e.description@ == "Active picks specified are from more than one league"@),
        leagues@.len() == 0 ==> (r matches Err(e) && e.description@ == "Could not find a league for active picks"@),
{
    if leagues.len() > 1 {
        return Err(InvalidInputError { description: "Active picks specified are from more than one league" });
    }
    if leagues.len() == 0 {
        return Err(InvalidInputError { description: "Could not find a league for active picks" });
    }
    Ok(&leagues[0])
}

/// The last squad limit given for a position in the list, or `d` when none is.
pub open spec fn last_squad_max(limits: Seq<MaxPlayersPerPosition>, position: Seq<char>, d: i32) -> i32
    decreases limits.len(),
{
    if limits.len() == 0 {
        d
    } else if limits.last().position@ == position {
        limits.last().squad_max
    } else {
        last_squad_max(limits.drop_last(), position, d)
    }
}

/// The squad limit per position, a later entry for a position replacing an
/// earlier one.
pub fn squad_max_per_position(limits: Vec<MaxPlayersPerPosition>) -> (m: PositionMap)
    ensures
        m.wf(),
        forall|p: Seq<char>, d: i32| #[trigger] m.spec_get_or(p, d) == last_squad_max(limits@, p, d),
{
    let ghost src = limits@;
    let mut m = PositionMap::new();
    for l in it: limits.into_iter()
        invariant
            it.seq() == src,
            0 <= it.index() <= src.len(),
            m.wf(),
            forall|p: Seq<char>, d: i32| #[trigger] m.spec_get_or(p, d) == last_squad_max(src.take(it.index() as int), p, d),
    {
        let ghost i = it.index();
        assert(src.take(i + 1).drop_last() =~= src.take(i));
        assert(src.take(i + 1).last() == l);
        m.insert(l.position, l.squad_max);
    }
    assert(src.take(src.len() as int) =~= src);
    m
}

/// The outcome of the team check inside a result.
pub open spec fn team_outcome(r: Result<bool, ActivePicksError>) -> Result<bool, InvalidTeamError> {
    match r {
        Ok(b) => Ok(b),
        Err(ActivePicksError::Team(e)) => Err(e),
        Err(_) => Ok(false),
    }
}

/// Checks the updated teams of a league once the player caches are loaded:
/// without either cache the change is refused; otherwise each team is held
/// to the league's limits on players from the same team, per position
/// (`max_positions`) and in total (see `verify_teams`).
pub fn verify_active_picks(
    all_teams: Vec<VecUuid>,
    player_position_cache: &Option<HashMap<u128, String>>,
    player_team_cache: &Option<HashMap<u128, u128>>,
    league: &League,
    max_positions: &PositionMap,
) -> (r: Result<bool, ActivePicksError<'static>>)
    requires
        max_positions.wf(),
        forall|i: int| 0 <= i < all_teams@.len() ==> (#[trigger] all_teams@[i]).inner@.len() <= i32::MAX,
    ensures
        (player_position_cache is None || player_team_cache is None) ==> (r matches Err(ActivePicksError::Custom(e))
            && e.description@ == "Player team and position caches not yet populated"@),
        (player_position_cache is Some && player_team_cache is Some) ==> {
            &&& (r is Ok || r matches Err(ActivePicksError::Team(_)))
            &&& exists|missing: Seq<u128>| #[trigger] teams_verdict(
                all_teams@,
                player_position_cache.unwrap()@,
                player_team_cache.unwrap()@,
                missing,
                league.max_team_players_same_team,
                *max_positions,
                league.team_size,
                team_outcome(r),
            )
        },
{
    match (player_position_cache, player_team_cache) {
        (Some(pc), Some(tc)) => {
            match verify_teams(
                all_teams,
                pc,
                tc,
                &league.max_team_players_same_team,
                max_positions,
                &league.team_size,
            ) {
                Ok(b) => Ok(b),
                Err(e) => Err(ActivePicksError::Team(e)),
            }
        },
        _ => Err(ActivePicksError::Custom(CustomError { description: "Player team and position caches not yet populated" })),
    }
}

/// Checks a change of active picks in the order the server does: the picks
/// must come from exactly one league (see `league_for_active_picks`), then
/// both player caches must be loaded, then every updated team is held to
/// that league's limits, with its squad limits per position (`limits`, a
/// later entry for a position replacing an earlier one; see
/// `verify_active_picks`).
pub fn check_active_picks(
    all_teams: Vec<VecUuid>,
    leagues: &Vec<League>,
    player_position_cache: &Option<HashMap<u128, String>>,
    player_team_cache: &Option<HashMap<u128, u128>>,
    limits: Vec<MaxPlayersPerPosition>,
) -> (r: Result<bool, ActivePicksError<'static>>)
    requires
        forall|i: int| 0 <= i < all_teams@.len() ==> (#[trigger] all_teams@[i]).inner@.len() <= i32::MAX,
    ensures
        leagues@.len() > 1 ==> (r matches Err(ActivePicksError::Input(e))
            && e.description@ == "Active picks specified are from more than one league"@),
        leagues@.len() == 0 ==> (r matches Err(ActivePicksError::Input(e))
            && e.description@ == "Could not find a league for active picks"@),
        leagues@.len() == 1 && (player_position_cache is None || player_team_cache is None) ==> (r matches Err(ActivePicksError::Custom(e))
            && e.description@ == "Player team and position caches not yet populated"@),
        leagues@.len() == 1 && player_position_cache is Some && player_team_cache is Some ==> {
            &&& (r is Ok || r matches Err(ActivePicksError::Team(_)))
            &&& exists|m: PositionMap, missing: Seq<u128>| {
                &&& m.wf()
                &&& (forall|p: Seq<char>, d: i32| #[trigger] m.spec_get_or(p, d) == last_squad_max(limits@, p, d))
                &&& #[trigger] teams_verdict(
                    all_teams@,
                    player_position_cache.unwrap()@,
                    player_team_cache.unwrap()@,
                    missing,
                    leagues@[0].max_team_players_same_team,
                    m,
                    leagues@[0].team_size,
                    team_outcome(r),
                )
            }
        },
{
    let league = match league_for_active_picks(leagues) {
        Ok(l) => l,
        Err(e) => {
            return Err(ActivePicksError::Input(e));
        },
    };
    if player_position_cache.is_none() || player_team_cache.is_none() {
        return Err(ActivePicksError::Custom(CustomError { description: "Player team and position caches not yet populated" }));
    }
    let max_positions = squad_max_per_position(limits);
    verify_active_picks(all_teams, player_position_cache, player_team_cache, league, &max_positions)
}

/// The squad limit for a position is the one its last entry in the list
/// gives; a position the list does not name gets the default.
pub proof fn lemma_last_entry_sets_squad_max(limits: Seq<MaxPlayersPerPosition>, position: Seq<char>, d: i32)
    ensures
        (forall|k: int| 0 <= k < limits.len() ==> (#[trigger] limits[k]).position@ != position) ==> last_squad_max(limits, position, d) == d,
        forall|k: int| 0 <= k < limits.len() && (#[trigger] limits[k]).position@ == position
            && (forall|j: int| k < j < limits.len() ==> (#[trigger] limits[j]).position@ != position)
            ==> last_squad_max(limits, position, d) == limits[k].squad_max,
    decreases limits.len(),
{
    if limits.len() > 0 {
        let rest = limits.drop_last();
        lemma_last_entry_sets_squad_max(rest, position, d);
        let n = limits.len() - 1;
        if forall|k: int| 0 <= k < limits.len() ==> (#[trigger] limits[k]).position@ != position {
            assert(limits[n].position@ != position);
            assert forall|k: int| 0 <= k < rest.len() implies (#[trigger] rest[k]).position@ != position by {
                assert(rest[k] == limits[k]);
            }
        }
        assert forall|k: int| 0 <= k < limits.len() && (#[trigger] limits[k]).position@ == position
            && (forall|j: int| k < j < limits.len() ==> (#[trigger] limits[j]).position@ != position)
            implies last_squad_max(limits, position, d) == limits[k].squad_max by {
            if k < n {
                assert(limits[n].position@ != position);
                assert(rest[k] == limits[k]);
                assert forall|j: int| k < j < rest.len() implies (#[trigger] rest[j]).position@ != position by {
                    assert(rest[j] == limits[j]);
                }
            }
        }
    }
}

} // verus!
