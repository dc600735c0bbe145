//! Draft logic: squad and team limits, picking for a draft choice, splitting a
//! league into drafts, and deciding which scheduled work is due.
use vstd::prelude::*;
use std::collections::HashMap;
use crate::fantasy::position_map::PositionMap;
use crate::ids::new_v4;
use crate::fantasy::errors::InvalidTeamError;
use crate::text::i32_to_string;
use crate::random::choose_random;
use crate::timespan::{DieselTimespan, TimeBound, Timestamp};
use crate::fantasy::errors::NoValidPicksError;
use crate::fantasy::types::drafts::{ApiDraftChoice, ApiPick, Draft, DraftChoice, TeamDraft};
use crate::fantasy::types::fantasy_teams::{ActivePick, Pick};
use crate::fantasy::types::leagues::League;
use std::collections::HashSet;

verus! {

broadcast use vstd::std_specs::hash::group_hash_axioms;

/// The position a player plays, by the position cache; an unknown player
/// counts under the empty position name.
pub open spec fn position_of(position_cache: Map<u128, String>, player_id: u128) -> Seq<char> {
    if position_cache.contains_key(player_id) {
        position_cache[player_id]@
    } else {
        Seq::empty()
    }
}

/// The real-life team a player plays for, by the team cache; an unknown player
/// counts under `missing_team`.
pub open spec fn team_of(team_cache: Map<u128, u128>, missing_team: u128, player_id: u128) -> u128 {
    if team_cache.contains_key(player_id) {
        team_cache[player_id]
    } else {
        missing_team
    }
}

/// How many of `players` play in `position`.
pub open spec fn position_count(
    players: Seq<u128>,
    position_cache: Map<u128, String>,
    position: Seq<char>,
) -> nat
    decreases players.len(),
{
    if players.len() == 0 {
        0
    } else {
        position_count(players.drop_last(), position_cache, position) + if position_of(
            position_cache,
            players.last(),
        ) == position {
            1nat
        } else {
            0nat
        }
    }
}

/// How many of `players` play for `team`.
pub open spec fn team_count(
    players: Seq<u128>,
    team_cache: Map<u128, u128>,
    missing_team: u128,
    team: u128,
) -> nat
    decreases players.len(),
{
    if players.len() == 0 {
        0
    } else {
        team_count(players.drop_last(), team_cache, missing_team, team) + if team_of(
            team_cache,
            missing_team,
            players.last(),
        ) == team {
            1nat
        } else {
            0nat
        }
    }
}

proof fn lemma_position_count_step(
    players: Seq<u128>,
    position_cache: Map<u128, String>,
    position: Seq<char>,
    k: int,
)
    requires
        0 <= k < players.len(),
    ensures
        position_count(players.take(k + 1), position_cache, position) == position_count(
            players.take(k),
            position_cache,
            position,
        ) + if position_of(position_cache, players[k]) == position {
            1nat
        } else {
            0nat
        },
{
    assert(players.take(k + 1).drop_last() =~= players.take(k));
}

proof fn lemma_team_count_step(
    players: Seq<u128>,
    team_cache: Map<u128, u128>,
    missing_team: u128,
    team: u128,
    k: int,
)
    requires
        0 <= k < players.len(),
    ensures
        team_count(players.take(k + 1), team_cache, missing_team, team) == team_count(
            players.take(k),
            team_cache,
            missing_team,
            team,
        ) + if team_of(team_cache, missing_team, players[k]) == team {
            1nat
        } else {
            0nat
        },
{
    assert(players.take(k + 1).drop_last() =~= players.take(k));
}

proof fn lemma_position_count_bound(
    players: Seq<u128>,
    position_cache: Map<u128, String>,
    position: Seq<char>,
)
    ensures
        position_count(players, position_cache, position) <= players.len(),
    decreases players.len(),
{
    if players.len() > 0 {
        lemma_position_count_bound(players.drop_last(), position_cache, position);
    }
}

proof fn lemma_team_count_bound(
    players: Seq<u128>,
    team_cache: Map<u128, u128>,
    missing_team: u128,
    team: u128,
)
    ensures
        team_count(players, team_cache, missing_team, team) <= players.len(),
    decreases players.len(),
{
    if players.len() > 0 {
        lemma_team_count_bound(players.drop_last(), team_cache, missing_team, team);
    }
}

/// `positions` and `teams` count exactly the positions and teams of `players`:
/// one entry for each position or team that occurs, holding how often it occurs.
pub open spec fn counts_of(
    players: Seq<u128>,
    position_cache: Map<u128, String>,
    team_cache: Map<u128, u128>,
    missing_team: u128,
    positions: PositionMap,
    teams: Map<u128, i32>,
) -> bool {
    &&& positions.wf()
    &&& forall|i: int|
        0 <= i < positions.positions@.len() ==> #[trigger] positions.values@[i] == position_count(
            players,
            position_cache,
            positions.positions@[i]@,
        )
    &&& forall|position: Seq<char>|
        #[trigger] positions.has(position) <==> exists|k: int|
            0 <= k < players.len() && #[trigger] position_of(position_cache, players[k])
                == position
    &&& forall|team: u128|
        #[trigger] teams.contains_key(team) <==> exists|k: int|
            0 <= k < players.len() && #[trigger] team_of(team_cache, missing_team, players[k])
                == team
    &&& forall|team: u128|
        #[trigger] teams.contains_key(team) ==> teams[team] == team_count(
            players,
            team_cache,
            missing_team,
            team,
        )
}

/// Counts the players of each position and of each team, with players that the
/// team cache does not know counted under `missing_team`.
pub fn count_positions_and_teams(
    player_ids: &Vec<u128>,
    player_position_cache: &HashMap<u128, String>,
    player_team_cache: &HashMap<u128, u128>,
    missing_team: u128,
) -> (r: (PositionMap, HashMap<u128, i32>))
    requires
        player_ids@.len() <= i32::MAX,
    ensures
        counts_of(
            player_ids@,
            player_position_cache@,
            player_team_cache@,
            missing_team,
            r.0,
            r.1@,
        ),
{
    let mut positions = PositionMap::new();
    let mut teams: HashMap<u128, i32> = HashMap::new();
    let ghost players = player_ids@;
    let ghost pcache = player_position_cache@;
    let ghost tcache = player_team_cache@;
    let mut k: usize = 0;
    assert(players.take(0) =~= Seq::<u128>::empty());
    while k < player_ids.len()
        invariant
            players == player_ids@,
            pcache == player_position_cache@,
            tcache == player_team_cache@,
            k <= players.len(),
            players.len() <= i32::MAX,
            counts_of(players.take(k as int), pcache, tcache, missing_team, positions, teams@),
        decreases players.len() - k,
    {
        let pid = player_ids[k];
        let position: String = match player_position_cache.get(&pid) {
            Some(p) => p.clone(),
            None => String::new(),
        };
        let team: u128 = match player_team_cache.get(&pid) {
            Some(t) => *t,
            None => missing_team,
        };
        assert(position@ == position_of(pcache, pid));
        assert(team == team_of(tcache, missing_team, pid));
        let ghost prefix = players.take(k as int);
        let ghost next = players.take(k + 1);
        assert(next =~= prefix.push(pid));
        let ghost old_positions = positions;
        let ghost old_teams = teams@;
        match positions.find(&position) {
            Some(i) => {
                let c = positions.values[i];
                proof {
                    lemma_position_count_bound(prefix, pcache, position@);
                }
                positions.values.set(i, c + 1);
            },
            None => {
                positions.positions.push(position.clone());
                positions.values.push(1);
            },
        }
        match teams.get(&team) {
            Some(c) => {
                let c = *c;
                proof {
                    lemma_team_count_bound(prefix, tcache, missing_team, team);
                }
                teams.insert(team, c + 1);
            },
            None => {
                teams.insert(team, 1);
            },
        }
        proof {
            assert forall|i: int|
                0 <= i < positions.positions@.len() implies #[trigger] positions.values@[i]
                == position_count(next, pcache, positions.positions@[i]@) by {
                lemma_position_count_step(players, pcache, positions.positions@[i]@, k as int);
                if i < old_positions.positions@.len() {
                    assert(positions.positions@[i] == old_positions.positions@[i]);
                    if position_count(prefix, pcache, positions.positions@[i]@) == 0 {
                        // an entry always counts someone
                        assert(old_positions.has(old_positions.positions@[i]@));
                        let w = choose|w: int|
                            0 <= w < prefix.len() && #[trigger] position_of(pcache, prefix[w])
                                == old_positions.positions@[i]@;
                        assert(false) by {
                            lemma_zero_count_absent(prefix, pcache, old_positions.positions@[i]@, w);
                        }
                    }
                } else {
                    assert(!old_positions.has(position@));
                    assert(position_count(prefix, pcache, position@) == 0) by {
                        lemma_absent_zero_count(prefix, pcache, position@);
                    }
                }
            }
            assert forall|i: int, j: int|
                0 <= i < j < positions.positions@.len() implies #[trigger] positions.positions@[i]@
                != #[trigger] positions.positions@[j]@ by {
                if j >= old_positions.positions@.len() {
                    assert(!old_positions.has(position@));
                    assert(old_positions.positions@[i]@ != position@);
                } else {
                    assert(old_positions.positions@[i]@ != old_positions.positions@[j]@);
                }
            }
            assert forall|p: Seq<char>| #[trigger] positions.has(p) <==> exists|w: int|
                0 <= w < next.len() && #[trigger] position_of(pcache, next[w]) == p by {
                if positions.has(p) {
                    let i = choose|i: int|
                        0 <= i < positions.positions@.len() && #[trigger] positions.positions@[i]@
                            == p;
                    if i < old_positions.positions@.len() {
                        assert(old_positions.has(p));
                        let w = choose|w: int|
                            0 <= w < prefix.len() && #[trigger] position_of(pcache, prefix[w]) == p;
                        assert(next[w] == prefix[w]);
                    } else {
                        assert(next[k as int] == pid);
                    }
                }
                if exists|w: int| 0 <= w < next.len() && #[trigger] position_of(pcache, next[w]) == p {
                    let w = choose|w: int|
                        0 <= w < next.len() && #[trigger] position_of(pcache, next[w]) == p;
                    if w < k {
                        assert(prefix[w] == next[w]);
                        assert(old_positions.has(p));
                        let i = choose|i: int|
                            0 <= i < old_positions.positions@.len()
                                && #[trigger] old_positions.positions@[i]@ == p;
                        assert(positions.positions@[i] == old_positions.positions@[i]);
                    } else {
                        assert(next[w] == pid);
                        assert(positions.has(position@)) by {
                            if old_positions.has(position@) {
                                let i = choose|i: int|
                                    0 <= i < old_positions.positions@.len()
                                        && #[trigger] old_positions.positions@[i]@ == position@;
                                assert(positions.positions@[i] == old_positions.positions@[i]);
                            } else {
                                let last = old_positions.positions@.len() as int;
                                assert(positions.positions@[last] == position);
                            }
                        }
                    }
                }
            }
            assert forall|t: u128| #[trigger] teams@.contains_key(t) <==> exists|w: int|
                0 <= w < next.len() && #[trigger] team_of(tcache, missing_team, next[w]) == t by {
                if t == team {
                    assert(team_of(tcache, missing_team, next[k as int]) == t);
                } else if old_teams.contains_key(t) {
                    let w = choose|w: int|
                        0 <= w < prefix.len() && #[trigger] team_of(tcache, missing_team, prefix[w])
                            == t;
                    assert(next[w] == prefix[w]);
                } else {
                    if exists|w: int|
                        0 <= w < next.len() && #[trigger] team_of(tcache, missing_team, next[w])
                            == t {
                        let w = choose|w: int|
                            0 <= w < next.len() && #[trigger] team_of(tcache, missing_team, next[w])
                                == t;
                        assert(w != k);
                        assert(prefix[w] == next[w]);
                    }
                }
            }
            assert forall|t: u128| #[trigger] teams@.contains_key(t) implies teams@[t] == team_count(
                next,
                tcache,
                missing_team,
                t,
            ) by {
                lemma_team_count_step(players, tcache, missing_team, t, k as int);
                if t == team && !old_teams.contains_key(t) {
                    lemma_absent_zero_team_count(prefix, tcache, missing_team, t);
                }
            }
        }
        k = k + 1;
    }
    assert(players.take(players.len() as int) =~= players);
    (positions, teams)
}

proof fn lemma_absent_zero_count(
    players: Seq<u128>,
    position_cache: Map<u128, String>,
    position: Seq<char>,
)
    requires
        forall|w: int|
            0 <= w < players.len() ==> #[trigger] position_of(position_cache, players[w])
                != position,
    ensures
        position_count(players, position_cache, position) == 0,
    decreases players.len(),
{
    if players.len() > 0 {
        let s = players.drop_last();
        assert forall|w: int| 0 <= w < s.len() implies #[trigger] position_of(position_cache, s[w])
            != position by {
            assert(s[w] == players[w]);
        }
        lemma_absent_zero_count(s, position_cache, position);
        assert(position_of(position_cache, players[players.len() - 1]) != position);
    }
}

proof fn lemma_zero_count_absent(
    players: Seq<u128>,
    position_cache: Map<u128, String>,
    position: Seq<char>,
    w: int,
)
    requires
        0 <= w < players.len(),
        position_of(position_cache, players[w]) == position,
    ensures
        position_count(players, position_cache, position) > 0,
    decreases players.len(),
{
    if w < players.len() - 1 {
        let s = players.drop_last();
        assert(s[w] == players[w]);
        lemma_zero_count_absent(s, position_cache, position, w);
    }
}

proof fn lemma_absent_zero_team_count(
    players: Seq<u128>,
    team_cache: Map<u128, u128>,
    missing_team: u128,
    team: u128,
)
    requires
        forall|w: int|
            0 <= w < players.len() ==> #[trigger] team_of(team_cache, missing_team, players[w])
                != team,
    ensures
        team_count(players, team_cache, missing_team, team) == 0,
    decreases players.len(),
{
    if players.len() > 0 {
        let s = players.drop_last();
        assert forall|w: int| 0 <= w < s.len() implies #[trigger] team_of(
            team_cache,
            missing_team,
            s[w],
        ) != team by {
            assert(s[w] == players[w]);
        }
        lemma_absent_zero_team_count(s, team_cache, missing_team, team);
        assert(team_of(team_cache, missing_team, players[players.len() - 1]) != team);
    }
}


/// Counts the players of each position and of each team. Players that the
/// team cache does not know all count under one freshly drawn identifier.
pub fn position_team_counts(
    player_ids: &Vec<u128>,
    player_position_cache: &HashMap<u128, String>,
    player_team_cache: &HashMap<u128, u128>,
) -> (r: (PositionMap, HashMap<u128, i32>))
    requires
        player_ids@.len() <= i32::MAX,
    ensures
        exists|missing_team: u128|
            counts_of(
                player_ids@,
                player_position_cache@,
                player_team_cache@,
                missing_team,
                r.0,
                r.1@,
            ),
{
    let missing_team = new_v4();
    count_positions_and_teams(player_ids, player_position_cache, player_team_cache, missing_team)
}

/// The players of one fantasy team, as the database lists them.
#[derive(Debug, Clone)]
pub struct VecUuid {
    pub inner: Vec<u128>,
}

/// The most players of `position` a team may hold: the league's limit, or 99
/// when the league sets none.
pub open spec fn position_limit(max_per_position: PositionMap, position: Seq<char>) -> i32 {
    max_per_position.spec_get_or(position, 99)
}

/// Some player plays in `position`, and more players do than the limit allows.
pub open spec fn breaks_position_limit(
    players: Seq<u128>,
    position_cache: Map<u128, String>,
    max_per_position: PositionMap,
    position: Seq<char>,
) -> bool {
    &&& exists|k: int| 0 <= k < players.len() && #[trigger] position_of(position_cache, players[k]) == position
    &&& position_count(players, position_cache, position) > position_limit(max_per_position, position)
}

/// The largest number of players from one real team is above the limit
/// (for a team with no players that number is 0).
pub open spec fn breaks_team_limit(
    players: Seq<u128>,
    team_cache: Map<u128, u128>,
    missing_team: u128,
    max_same_team: i32,
) -> bool {
    if players.len() == 0 {
        0 > max_same_team
    } else {
        exists|k: int|
            0 <= k < players.len() && #[trigger] team_count(
                players,
                team_cache,
                missing_team,
                team_of(team_cache, missing_team, players[k]),
            ) > max_same_team
    }
}

/// A team keeps to its league's limits on size, per position and per real team.
pub open spec fn team_is_valid(
    players: Seq<u128>,
    position_cache: Map<u128, String>,
    team_cache: Map<u128, u128>,
    missing_team: u128,
    max_same_team: i32,
    max_per_position: PositionMap,
    max_team_size: i32,
) -> bool {
    &&& players.len() <= max_team_size
    &&& !(exists|position: Seq<char>|
        breaks_position_limit(players, position_cache, max_per_position, position))
    &&& !breaks_team_limit(players, team_cache, missing_team, max_same_team)
}

/// The description given for a team above the size limit.
pub open spec fn size_message(max_team_size: i32) -> Seq<char> {
    "Team cannot be larger than "@ + crate::text::int_decimal(max_team_size as int)
}

/// The description given for a team above a position's limit.
pub open spec fn position_message(max: i32, position: Seq<char>) -> Seq<char> {
    "Team cannot have more than "@ + crate::text::int_decimal(max as int)
        + " players for position "@ + position
}

/// The description given for a team with too many players from one real team.
pub open spec fn team_message(max_same_team: i32) -> Seq<char> {
    "Team cannot have more than "@ + crate::text::int_decimal(max_same_team as int)
        + " players from same team"@
}

/// `description` names a limit that an invalid team breaks: the size limit is
/// reported first, then a broken position limit, then the per-team limit.
pub open spec fn explains_invalid_team(
    players: Seq<u128>,
    position_cache: Map<u128, String>,
    team_cache: Map<u128, u128>,
    missing_team: u128,
    max_same_team: i32,
    max_per_position: PositionMap,
    max_team_size: i32,
    description: Seq<char>,
) -> bool {
    if players.len() > max_team_size {
        description == size_message(max_team_size)
    } else if exists|position: Seq<char>|
        breaks_position_limit(players, position_cache, max_per_position, position) {
        exists|position: Seq<char>|
            breaks_position_limit(players, position_cache, max_per_position, position)
                && description == position_message(
                position_limit(max_per_position, position),
                position,
            )
    } else {
        description == team_message(max_same_team)
    }
}

/// The verdict on a list of teams: valid when every team is, otherwise an
/// error that explains the first invalid team. `missing` holds, per team, the
/// identifier its unknown players count under.
pub open spec fn teams_verdict(
    teams: Seq<VecUuid>,
    position_cache: Map<u128, String>,
    team_cache: Map<u128, u128>,
    missing: Seq<u128>,
    max_same_team: i32,
    max_per_position: PositionMap,
    max_team_size: i32,
    r: Result<bool, InvalidTeamError>,
) -> bool {
    &&& missing.len() == teams.len()
    &&& (r is Ok <==> forall|i: int|
        0 <= i < teams.len() ==> #[trigger] team_is_valid(
            teams[i].inner@,
            position_cache,
            team_cache,
            missing[i],
            max_same_team,
            max_per_position,
            max_team_size,
        ))
    &&& (r matches Ok(b) ==> b)
    &&& (r matches Err(e) ==> exists|k: int|
        0 <= k < teams.len() && (forall|i: int|
            0 <= i < k ==> #[trigger] team_is_valid(
                teams[i].inner@,
                position_cache,
                team_cache,
                missing[i],
                max_same_team,
                max_per_position,
                max_team_size,
            )) && !team_is_valid(
            teams[k].inner@,
            position_cache,
            team_cache,
            missing[k],
            max_same_team,
            max_per_position,
            max_team_size,
        ) && explains_invalid_team(
            teams[k].inner@,
            position_cache,
            team_cache,
            missing[k],
            max_same_team,
            max_per_position,
            max_team_size,
            e.description@,
        ))
}

/// Checks one team against the limits; `Err` carries the description of the
/// limit it breaks.
fn check_team(
    players: &Vec<u128>,
    player_position_cache: &HashMap<u128, String>,
    player_team_cache: &HashMap<u128, u128>,
    missing_team: u128,
    max_team_players_same_team: i32,
    max_team_players_same_position: &PositionMap,
    max_team_size: i32,
) -> (r: Result<(), String>)
    requires
        players@.len() <= i32::MAX,
        max_team_players_same_position.wf(),
    ensures
        r is Ok <==> team_is_valid(
            players@,
            player_position_cache@,
            player_team_cache@,
            missing_team,
            max_team_players_same_team,
            *max_team_players_same_position,
            max_team_size,
        ),
        r matches Err(d) ==> explains_invalid_team(
            players@,
            player_position_cache@,
            player_team_cache@,
            missing_team,
            max_team_players_same_team,
            *max_team_players_same_position,
            max_team_size,
            d@,
        ),
{
    let ghost pl = players@;
    let ghost pcache = player_position_cache@;
    let ghost tcache = player_team_cache@;
    let ghost maxp = *max_team_players_same_position;
    let (position_counts, team_counts) = count_positions_and_teams(
        players,
        player_position_cache,
        player_team_cache,
        missing_team,
    );
    let team_len = players.len() as i32;
    if team_len > max_team_size {
        let d = String::from_str("Team cannot be larger than ").concat(
            i32_to_string(max_team_size).as_str(),
        );
        return Err(d);
    }
    let mut i: usize = 0;
    while i < position_counts.positions.len()
        invariant
            counts_of(pl, pcache, tcache, missing_team, position_counts, team_counts@),
            maxp.wf(),
            maxp == *max_team_players_same_position,
            pl == players@,
            pcache == player_position_cache@,
            tcache == player_team_cache@,
            pl.len() <= max_team_size,
            i <= position_counts.positions@.len(),
            forall|j: int|
                0 <= j < i ==> position_counts.values@[j] <= #[trigger] position_limit(
                    maxp,
                    position_counts.positions@[j]@,
                ),
        decreases position_counts.positions@.len() - i,
    {
        let max = max_team_players_same_position.get_or(&position_counts.positions[i], 99);
        if position_counts.values[i] > max {
            let ghost p = position_counts.positions@[i as int]@;
            proof {
                assert(position_counts.has(p));
            }
            let d = String::from_str("Team cannot have more than ").concat(
                i32_to_string(max).as_str(),
            ).concat(" players for position ").concat(position_counts.positions[i].as_str());
            assert(breaks_position_limit(pl, pcache, maxp, p));
            return Err(d);
        }
        i = i + 1;
    }
    assert(!(exists|position: Seq<char>| breaks_position_limit(pl, pcache, maxp, position))) by {
        if exists|position: Seq<char>| breaks_position_limit(pl, pcache, maxp, position) {
            let p = choose|position: Seq<char>| breaks_position_limit(pl, pcache, maxp, position);
            assert(position_counts.has(p));
            let j = choose|j: int|
                0 <= j < position_counts.positions@.len()
                    && #[trigger] position_counts.positions@[j]@ == p;
            assert(position_counts.values@[j] <= position_limit(maxp, position_counts.positions@[j]@));
        }
    }
    if players.len() == 0 {
        if 0 > max_team_players_same_team {
            let d = String::from_str("Team cannot have more than ").concat(
                i32_to_string(max_team_players_same_team).as_str(),
            ).concat(" players from same team");
            return Err(d);
        }
        return Ok(());
    }
    let mut k: usize = 0;
    while k < players.len()
        invariant
            counts_of(pl, pcache, tcache, missing_team, position_counts, team_counts@),
            pl == players@,
            pcache == player_position_cache@,
            tcache == player_team_cache@,
            maxp == *max_team_players_same_position,
            pl.len() <= max_team_size,
            !(exists|position: Seq<char>| breaks_position_limit(pl, pcache, maxp, position)),
            k <= pl.len(),
            forall|w: int|
                0 <= w < k ==> #[trigger] team_count(
                    pl,
                    tcache,
                    missing_team,
                    team_of(tcache, missing_team, pl[w]),
                ) <= max_team_players_same_team,
        decreases pl.len() - k,
    {
        let pid = players[k];
        let team: u128 = match player_team_cache.get(&pid) {
            Some(t) => *t,
            None => missing_team,
        };
        assert(team == team_of(tcache, missing_team, pl[k as int]));
        assert(team_counts@.contains_key(team));
        let count: i32 = match team_counts.get(&team) {
            Some(c) => *c,
            None => 0,
        };
        if count > max_team_players_same_team {
            let d = String::from_str("Team cannot have more than ").concat(
                i32_to_string(max_team_players_same_team).as_str(),
            ).concat(" players from same team");
            assert(breaks_team_limit(pl, tcache, missing_team, max_team_players_same_team));
            return Err(d);
        }
        k = k + 1;
    }
    Ok(())
}

/// Checks each team, in order, against its league's limits: the number of
/// players, the players per position (99 where the league sets no limit) and
/// the players from any one real team. Valid teams give `Ok(true)`; the first
/// invalid team gives an error describing the limit it breaks. Players the
/// team cache does not know count, per team, under one freshly drawn team.
pub fn verify_teams(
    all_teams: Vec<VecUuid>,
    player_position_cache: &HashMap<u128, String>,
    player_team_cache: &HashMap<u128, u128>,
    max_team_players_same_team: &i32,
    max_team_players_same_position: &PositionMap,
    max_team_size: &i32,
) -> (r: Result<bool, InvalidTeamError>)
    requires
        max_team_players_same_position.wf(),
        forall|i: int| 0 <= i < all_teams@.len() ==> (#[trigger] all_teams@[i]).inner@.len() <= i32::MAX,
    ensures
        exists|missing: Seq<u128>|
            teams_verdict(
                all_teams@,
                player_position_cache@,
                player_team_cache@,
                missing,
                *max_team_players_same_team,
                *max_team_players_same_position,
                *max_team_size,
                r,
            ),
{
    let ghost teams = all_teams@;
    let ghost pcache = player_position_cache@;
    let ghost tcache = player_team_cache@;
    let ghost maxp = *max_team_players_same_position;
    let ghost mut missing: Seq<u128> = Seq::empty();
    let mut i: usize = 0;
    while i < all_teams.len()
        invariant
            teams == all_teams@,
            pcache == player_position_cache@,
            tcache == player_team_cache@,
            maxp == *max_team_players_same_position,
            maxp.wf(),
            forall|j: int| 0 <= j < teams.len() ==> (#[trigger] teams[j]).inner@.len() <= i32::MAX,
            i <= teams.len(),
            missing.len() == i,
            forall|j: int|
                0 <= j < i ==> #[trigger] team_is_valid(
                    teams[j].inner@,
                    pcache,
                    tcache,
                    missing[j],
                    *max_team_players_same_team,
                    maxp,
                    *max_team_size,
                ),
        decreases teams.len() - i,
    {
        let missing_team = new_v4();
        let checked = check_team(
            &all_teams[i].inner,
            player_position_cache,
            player_team_cache,
            missing_team,
            *max_team_players_same_team,
            max_team_players_same_position,
            *max_team_size,
        );
        proof {
            missing = missing.push(missing_team);
        }
        match checked {
            Err(d) => {
                let r: Result<bool, InvalidTeamError> = Err(InvalidTeamError { description: d });
                proof {
                    let full = missing + Seq::new((teams.len() - i - 1) as nat, |j: int| 0u128);
                    assert forall|j: int| 0 <= j <= i implies full[j] == missing[j] by {}
                    assert(!team_is_valid(
                        teams[i as int].inner@,
                        pcache,
                        tcache,
                        full[i as int],
                        *max_team_players_same_team,
                        maxp,
                        *max_team_size,
                    ));
                    assert(teams_verdict(
                        teams,
                        pcache,
                        tcache,
                        full,
                        *max_team_players_same_team,
                        maxp,
                        *max_team_size,
                        r,
                    ));
                }
                return r;
            },
            Ok(()) => {},
        }
        i = i + 1;
    }
    let r: Result<bool, InvalidTeamError> = Ok(true);
    assert(teams_verdict(
        teams,
        pcache,
        tcache,
        missing,
        *max_team_players_same_team,
        maxp,
        *max_team_size,
        r,
    ));
    r
}


/// Some squad member plays for `team`, and more of them do than the limit allows.
pub open spec fn team_banned(
    squad: Seq<u128>,
    team_cache: Map<u128, u128>,
    missing_team: u128,
    max_same_team: i32,
    team: u128,
) -> bool {
    &&& exists|k: int| 0 <= k < squad.len() && #[trigger] team_of(team_cache, missing_team, squad[k]) == team
    &&& team_count(squad, team_cache, missing_team, team) > max_same_team
}

/// A queued player may be taken: still available, known to both caches, and
/// neither its position nor its real team is already over the squad's limits.
pub open spec fn queue_pick_allowed(
    player: u128,
    valid_remaining: Seq<u128>,
    squad: Seq<u128>,
    position_cache: Map<u128, String>,
    team_cache: Map<u128, u128>,
    missing_team: u128,
    max_same_team: i32,
    max_per_position: PositionMap,
) -> bool {
    &&& valid_remaining.contains(player)
    &&& position_cache.contains_key(player)
    &&& team_cache.contains_key(player)
    &&& !breaks_position_limit(squad, position_cache, max_per_position, position_cache[player]@)
    &&& !team_banned(squad, team_cache, missing_team, max_same_team, team_cache[player])
}

/// `queue[k]` is the first player in the queue that may be taken.
pub open spec fn first_allowed_at(
    queue: Seq<u128>,
    k: int,
    valid_remaining: Seq<u128>,
    squad: Seq<u128>,
    position_cache: Map<u128, String>,
    team_cache: Map<u128, u128>,
    missing_team: u128,
    max_same_team: i32,
    max_per_position: PositionMap,
) -> bool {
    &&& 0 <= k < queue.len()
    &&& queue_pick_allowed(queue[k], valid_remaining, squad, position_cache, team_cache, missing_team, max_same_team, max_per_position)
    &&& forall|j: int| 0 <= j < k ==> !#[trigger] queue_pick_allowed(queue[j], valid_remaining, squad, position_cache, team_cache, missing_team, max_same_team, max_per_position)
}

/// Some player in the queue may be taken.
pub open spec fn queue_has_allowed(
    queue: Option<Vec<u128>>,
    valid_remaining: Seq<u128>,
    squad: Seq<u128>,
    position_cache: Map<u128, String>,
    team_cache: Map<u128, u128>,
    missing_team: u128,
    max_same_team: i32,
    max_per_position: PositionMap,
) -> bool {
    match queue {
        Some(q) => exists|k: int| 0 <= k < q@.len() && #[trigger] queue_pick_allowed(q@[k], valid_remaining, squad, position_cache, team_cache, missing_team, max_same_team, max_per_position),
        None => false,
    }
}

/// Takes the first player of a team's draft queue that is still available,
/// known to both caches, and whose position and real team are not already
/// over the squad's limits (a position without a limit allows 99). Squad
/// players the team cache does not know count under `missing_team`.
pub fn queue_pick(
    draft_queue: &Option<Vec<u128>>,
    valid_remaining_players: &Vec<u128>,
    current_squad: &Vec<u128>,
    player_position_cache: &HashMap<u128, String>,
    player_team_cache: &HashMap<u128, u128>,
    missing_team: u128,
    max_squad_players_same_team: i32,
    max_squad_players_same_position: &PositionMap,
) -> (r: Option<u128>)
    requires
        current_squad@.len() <= i32::MAX,
        max_squad_players_same_position.wf(),
    ensures
        r is Some <==> queue_has_allowed(*draft_queue, valid_remaining_players@, current_squad@, player_position_cache@, player_team_cache@, missing_team, max_squad_players_same_team, *max_squad_players_same_position),
        r matches Some(p) ==> exists|k: int| first_allowed_at(draft_queue->Some_0@, k, valid_remaining_players@, current_squad@, player_position_cache@, player_team_cache@, missing_team, max_squad_players_same_team, *max_squad_players_same_position) && draft_queue->Some_0@[k] == p,
{
    let ghost valid = valid_remaining_players@;
    let ghost squad = current_squad@;
    let ghost pcache = player_position_cache@;
    let ghost tcache = player_team_cache@;
    let ghost maxp = *max_squad_players_same_position;
    let queue = match draft_queue {
        Some(q) => q,
        None => {
            return None;
        },
    };
    let (position_counts, team_counts) = count_positions_and_teams(
        current_squad,
        player_position_cache,
        player_team_cache,
        missing_team,
    );
    let mut valid_set: HashSet<u128> = HashSet::new();
    let mut v: usize = 0;
    while v < valid_remaining_players.len()
        invariant
            valid == valid_remaining_players@,
            v <= valid.len(),
            forall|x: u128| #[trigger] valid_set@.contains(x) <==> valid.take(v as int).contains(x),
        decreases valid.len() - v,
    {
        valid_set.insert(valid_remaining_players[v]);
        proof {
            assert(valid.take(v + 1) =~= valid.take(v as int).push(valid[v as int]));
            assert forall|x: u128| #[trigger] valid_set@.contains(x) <==> valid.take(v + 1).contains(x) by {
                if x == valid[v as int] {
                    assert(valid.take(v + 1)[v as int] == x);
                }
                if valid.take(v + 1).contains(x) && x != valid[v as int] {
                    let w = choose|w: int| 0 <= w < v + 1 && #[trigger] valid.take(v + 1)[w] == x;
                    assert(valid.take(v as int)[w] == x);
                }
            }
        }
        v = v + 1;
    }
    assert(valid.take(valid.len() as int) =~= valid);
    let mut k: usize = 0;
    while k < queue.len()
        invariant
            *draft_queue == Some(*queue),
            valid == valid_remaining_players@,
            squad == current_squad@,
            pcache == player_position_cache@,
            tcache == player_team_cache@,
            maxp == *max_squad_players_same_position,
            maxp.wf(),
            counts_of(squad, pcache, tcache, missing_team, position_counts, team_counts@),
            forall|x: u128| #[trigger] valid_set@.contains(x) <==> valid.contains(x),
            k <= queue@.len(),
            forall|j: int| 0 <= j < k ==> !#[trigger] queue_pick_allowed(queue@[j], valid, squad, pcache, tcache, missing_team, max_squad_players_same_team, maxp),
        decreases queue@.len() - k,
    {
        let pid = queue[k];
        if valid_set.contains(&pid) {
            match (player_position_cache.get(&pid), player_team_cache.get(&pid)) {
                (Some(position), Some(team)) => {
                    let banned_position = match position_counts.find(position) {
                        Some(i) => position_counts.values[i] > max_squad_players_same_position.get_or(position, 99),
                        None => false,
                    };
                    let banned_team = match team_counts.get(team) {
                        Some(c) => *c > max_squad_players_same_team,
                        None => false,
                    };
                    proof {
                        assert(banned_position == breaks_position_limit(squad, pcache, maxp, position@)) by {
                            if position_counts.has(position@) {
                                let i = choose|i: int| 0 <= i < position_counts.positions@.len() && #[trigger] position_counts.positions@[i]@ == position@;
                                let _ = position_counts.values@[i];
                            }
                        }
                        assert(banned_team == team_banned(squad, tcache, missing_team, max_squad_players_same_team, *team));
                    }
                    if !banned_position && !banned_team {
                        assert(first_allowed_at(queue@, k as int, valid, squad, pcache, tcache, missing_team, max_squad_players_same_team, maxp));
                        assert(draft_queue->Some_0@ == queue@);
                        assert(queue_pick_allowed(queue@[k as int], valid, squad, pcache, tcache, missing_team, max_squad_players_same_team, maxp));
                        assert(queue_has_allowed(*draft_queue, valid, squad, pcache, tcache, missing_team, max_squad_players_same_team, maxp));
                        return Some(pid);
                    }
                },
                _ => {},
            }
        }
        k = k + 1;
    }
    None
}

/// `r` is what drafting decides for a team's turn: the first allowed player
/// of the team's queue, or else any still-available player, picked for the
/// turn and, when the league's squads are its teams, made active at once;
/// an error exactly when neither kind of player exists.
pub open spec fn pick_outcome(
    fantasy_team_id: u128,
    unchosen: DraftChoice,
    belongs_to_team_for: DieselTimespan,
    draft_queue: Option<Vec<u128>>,
    valid_remaining: Seq<u128>,
    squad: Seq<u128>,
    position_cache: Map<u128, String>,
    team_cache: Map<u128, u128>,
    missing_team: u128,
    max_same_team: i32,
    max_per_position: PositionMap,
    pick_straight_into_team: bool,
    r: Result<(Pick, Option<ActivePick>), NoValidPicksError>,
) -> bool {
    let from_queue = queue_has_allowed(draft_queue, valid_remaining, squad, position_cache, team_cache, missing_team, max_same_team, max_per_position);
    &&& (r is Ok <==> from_queue || valid_remaining.len() > 0)
    &&& (r matches Ok(out) ==> {
        let pick = out.0;
        let active = out.1;
        &&& pick.fantasy_team_id == fantasy_team_id
        &&& pick.draft_choice_id == unchosen.draft_choice_id
        &&& pick.timespan == belongs_to_team_for
        &&& (from_queue ==> exists|k: int| first_allowed_at(draft_queue->Some_0@, k, valid_remaining, squad, position_cache, team_cache, missing_team, max_same_team, max_per_position) && draft_queue->Some_0@[k] == pick.player_id)
        &&& (!from_queue ==> valid_remaining.contains(pick.player_id))
        &&& (active is Some <==> pick_straight_into_team)
        &&& (active matches Some(a) ==> a.pick_id == pick.pick_id && a.timespan == belongs_to_team_for)
    })
}

/// Makes the pick for a team whose turn has come: the first allowed player of
/// its draft queue (see `queue_pick`), or else a player drawn at random from
/// those still available. The pick gets a fresh identifier; when
/// `pick_straight_into_team` holds it is also made active, with a fresh
/// identifier, for the same timespan. With no player to take, the turn fails.
pub fn pick_from_queue_or_random(
    fantasy_team_id: u128,
    unchosen: DraftChoice,
    belongs_to_team_for: DieselTimespan,
    draft_queue: Option<Vec<u128>>,
    valid_remaining_players: &Vec<u128>,
    current_squad: &Vec<u128>,
    max_squad_players_same_team: &i32,
    max_squad_players_same_position: &PositionMap,
    pick_straight_into_team: bool,
    player_position_cache: &HashMap<u128, String>,
    player_team_cache: &HashMap<u128, u128>,
) -> (r: Result<(Pick, Option<ActivePick>), NoValidPicksError>)
    requires
        current_squad@.len() <= i32::MAX,
        max_squad_players_same_position.wf(),
    ensures
        exists|missing_team: u128|
            pick_outcome(fantasy_team_id, unchosen, belongs_to_team_for, draft_queue, valid_remaining_players@, current_squad@, player_position_cache@, player_team_cache@, missing_team, *max_squad_players_same_team, *max_squad_players_same_position, pick_straight_into_team, r),
{
    let draft_choice_id = unchosen.draft_choice_id;
    let missing_team = new_v4();
    let from_queue = queue_pick(
        &draft_queue,
        valid_remaining_players,
        current_squad,
        player_position_cache,
        player_team_cache,
        missing_team,
        *max_squad_players_same_team,
        max_squad_players_same_position,
    );
    let player = match from_queue {
        Some(p) => Some(p),
        None => choose_random(valid_remaining_players),
    };
    let r = match player {
        Some(player_id) => {
            let pick = Pick {
                pick_id: new_v4(),
                fantasy_team_id,
                draft_choice_id,
                player_id,
                timespan: belongs_to_team_for,
            };
            if pick_straight_into_team {
                let active_pick = ActivePick {
                    active_pick_id: new_v4(),
                    pick_id: pick.pick_id,
                    timespan: belongs_to_team_for,
                };
                Ok((pick, Some(active_pick)))
            } else {
                Ok((pick, None))
            }
        },
        None => Err(NoValidPicksError {  }),
    };
    assert(pick_outcome(fantasy_team_id, unchosen, belongs_to_team_for, draft_queue, valid_remaining_players@, current_squad@, player_position_cache@, player_team_cache@, missing_team, *max_squad_players_same_team, *max_squad_players_same_position, pick_straight_into_team, r));
    r
}


/// How many drafts a league's teams are split into: enough that none holds
/// more than `teams_per_draft` teams. A negative `teams_per_draft` reads as a
/// huge unsigned size, so all teams then share one draft.
pub open spec fn num_drafts(num_teams: int, teams_per_draft: int) -> int {
    if teams_per_draft < 0 {
        1
    } else {
        (num_teams - 1) / teams_per_draft + 1
    }
}

/// Splits teams, in the given order, over the drafts: team `i` goes to draft
/// `i % num_drafts`, and each draft keeps its teams in the given order.
pub open spec fn groups_follow(teams: Seq<u128>, nd: int, d: int, group: Seq<u128>) -> bool {
    &&& group.len() > 0
    &&& forall|x: int| 0 <= x < group.len() ==> #[trigger] member_at(teams, nd, d, group, x)
    &&& d + group.len() * nd >= teams.len()
}

/// The index, among a period's teams, of the `x`-th team of draft `d` when
/// there are `nd` drafts.
pub open spec fn slot_index(d: int, x: int, nd: int) -> int {
    d + x * nd
}

/// The `x`-th team of draft `d` is team `d + x * nd` of the league.
pub open spec fn member_at(teams: Seq<u128>, nd: int, d: int, group: Seq<u128>, x: int) -> bool {
    &&& d + x * nd < teams.len()
    &&& group[x] == teams[d + x * nd]
}

/// The teams of each draft: team `i` (in the given order) goes to draft
/// `i % n`, where `n` is `num_drafts`, and each draft keeps the given order.
pub fn draft_groups(teams: &Vec<u128>, teams_per_draft: i32) -> (groups: Vec<Vec<u128>>)
    requires
        teams@.len() > 0,
        teams_per_draft != 0,
    ensures
        groups@.len() == num_drafts(teams@.len() as int, teams_per_draft as int),
        forall|d: int| 0 <= d < groups@.len() ==> groups_follow(teams@, groups@.len() as int, d, (#[trigger] groups@[d])@),
{
    let n = teams.len();
    let nd: usize = if teams_per_draft < 0 {
        1
    } else {
        let tpd = teams_per_draft as usize;
        assert((n - 1) as int / tpd as int <= n - 1) by (nonlinear_arith)
            requires tpd >= 1, n >= 1;
        (n - 1) / tpd + 1
    };
    assert(nd <= n);
    let mut groups: Vec<Vec<u128>> = Vec::new();
    let mut d: usize = 0;
    while d < nd
        invariant
            nd <= n,
            n == teams@.len(),
            n > 0,
            nd >= 1,
            nd == num_drafts(n as int, teams_per_draft as int),
            d <= nd,
            groups@.len() == d,
            forall|e: int| 0 <= e < d ==> groups_follow(teams@, nd as int, e, (#[trigger] groups@[e])@),
        decreases nd - d,
    {
        let mut group: Vec<u128> = Vec::new();
        let mut i: usize = d;
        assert(d + group@.len() * nd == d) by (nonlinear_arith)
            requires group@.len() == 0;
        loop
            invariant_except_break
                i < n,
                i == d + group@.len() * nd,
                forall|x: int| 0 <= x < group@.len() ==> #[trigger] member_at(teams@, nd as int, d as int, group@, x),
            invariant
                nd <= n,
                n == teams@.len(),
                nd >= 1,
                d < nd,
            ensures
                groups_follow(teams@, nd as int, d as int, group@),
            decreases n - i,
        {
            let ghost x = group@.len() as int;
            let ghost before = group@;
            group.push(teams[i]);
            assert(d + (x + 1) * nd == d + x * nd + nd) by (nonlinear_arith);
            assert forall|y: int| 0 <= y < group@.len() implies #[trigger] member_at(teams@, nd as int, d as int, group@, y) by {
                if y < x {
                    assert(member_at(teams@, nd as int, d as int, before, y));
                    assert(group@[y] == before[y]);
                } else {
                    assert(y == x);
                    assert(i == d + x * nd);
                }
            }
            if n - i <= nd {
                assert(groups_follow(teams@, nd as int, d as int, group@));
                break;
            }
            i = i + nd;
        }
        groups.push(group);
        d = d + 1;
    }
    groups
}

/// The team placed `x`-th in round `round` of a draft of `m` teams: rounds
/// alternate between the teams' order and its reverse ("snake" order).
pub open spec fn snake_index(round: int, x: int, m: int) -> int {
    if round % 2 == 0 {
        x
    } else {
        m - 1 - x
    }
}

/// The time slot of the `c`-th turn of a draft: `[start + c*interval,
/// start + c*interval + interval)`.
pub open spec fn choice_timespan(start: Timestamp, interval: int, c: int) -> DieselTimespan {
    DieselTimespan(
        TimeBound::Included(start.spec_plus_seconds(c * interval)),
        TimeBound::Excluded(start.spec_plus_seconds(c * interval + interval)),
    )
}

/// The turns of a draft: `squad_size` rounds in snake order, each team once
/// per round, turn `c` taking the `c`-th time slot.
pub open spec fn choices_follow(
    team_drafts: Seq<TeamDraft>,
    squad_size: int,
    start: Timestamp,
    interval: int,
    choices: Seq<ApiDraftChoice>,
) -> bool {
    let m = team_drafts.len() as int;
    &&& choices.len() == squad_size * m
    &&& forall|c: int| 0 <= c < choices.len() ==> {
        let td = team_drafts[snake_index(c / m, c % m, m)];
        &&& (#[trigger] choices[c]).team_draft_id == td.team_draft_id
        &&& choices[c].fantasy_team_id == td.fantasy_team_id
        &&& choices[c].timespan == choice_timespan(start, interval, c)
    }
}

/// Every turn time of a draft of `num_turns` turns fits the time arithmetic:
/// the start stays in range, and the offset of the last turn's start stays
/// within what a time delta can hold (a whole number of milliseconds in an
/// `i64`); the turns can be counted in an `i64`.
pub open spec fn draft_times_fit(start: Timestamp, interval: int, num_turns: int) -> bool {
    &&& -(i64::MAX / 2) <= start.secs <= i64::MAX / 2
    &&& (num_turns - 1) * (if interval < 0 { -interval } else { interval }) <= i64::MAX / 1000
    &&& num_turns <= i64::MAX
}

/// The number of teams in the largest draft of a period: the drafts share
/// the teams as evenly as they can.
pub open spec fn largest_draft(num_teams: int, teams_per_draft: int) -> int {
    (num_teams - 1) / num_drafts(num_teams, teams_per_draft) + 1
}

/// The turns of one draft, as `choices_follow` describes, each with a fresh identifier.
pub fn draft_choices(
    team_drafts: &Vec<TeamDraft>,
    squad_size: usize,
    draft_start: Timestamp,
    draft_interval_secs: i32,
) -> (choices: Vec<ApiDraftChoice>)
    requires
        team_drafts@.len() > 0,
        draft_times_fit(draft_start, draft_interval_secs as int, squad_size * team_drafts@.len()),
    ensures
        choices_follow(team_drafts@, squad_size as int, draft_start, draft_interval_secs as int, choices@),
{
    let m = team_drafts.len();
    let interval = draft_interval_secs as i64;
    let ghost total = squad_size * m;
    let ghost abs_i: int = if interval < 0 { -interval } else { interval as int };
    let mut choices: Vec<ApiDraftChoice> = Vec::new();
    let mut j: i64 = 0;
    let mut round: usize = 0;
    while round < squad_size
        invariant
            m == team_drafts@.len(),
            m > 0,
            interval == draft_interval_secs as i64,
            abs_i == if interval < 0 { -interval } else { interval as int },
            total == squad_size * m,
            draft_times_fit(draft_start, interval as int, total),
            round <= squad_size,
            j == round * m,
            choices@.len() == j,
            forall|c: int| 0 <= c < choices@.len() ==> {
                let td = team_drafts@[snake_index(c / m as int, c % m as int, m as int)];
                &&& (#[trigger] choices@[c]).team_draft_id == td.team_draft_id
                &&& choices@[c].fantasy_team_id == td.fantasy_team_id
                &&& choices@[c].timespan == choice_timespan(draft_start, interval as int, c)
            },
        decreases squad_size - round,
    {
        let mut x: usize = 0;
        while x < m
            invariant
                m == team_drafts@.len(),
                m > 0,
                interval == draft_interval_secs as i64,
                abs_i == if interval < 0 { -interval } else { interval as int },
                total == squad_size * m,
                draft_times_fit(draft_start, interval as int, total),
                round < squad_size,
                x <= m,
                j == round * m + x,
                choices@.len() == j,
                forall|c: int| 0 <= c < choices@.len() ==> {
                    let td = team_drafts@[snake_index(c / m as int, c % m as int, m as int)];
                    &&& (#[trigger] choices@[c]).team_draft_id == td.team_draft_id
                    &&& choices@[c].fantasy_team_id == td.fantasy_team_id
                    &&& choices@[c].timespan == choice_timespan(draft_start, interval as int, c)
                },
            decreases m - x,
        {
            let idx = if round % 2 == 0 { x } else { m - 1 - x };
            let t = team_drafts[idx];
            proof {
                assert(round * m + x < squad_size * m) by (nonlinear_arith)
                    requires round < squad_size, x < m;
                assert(j * abs_i <= (total - 1) * abs_i) by (nonlinear_arith)
                    requires 0 <= j <= total - 1, abs_i >= 0;
                assert(-(j * abs_i) <= j * interval <= j * abs_i) by (nonlinear_arith)
                    requires j >= 0, abs_i == if interval < 0 { -interval } else { interval as int };
                vstd::arithmetic::div_mod::lemma_fundamental_div_mod_converse(j as int, m as int, round as int, x as int);
            }
            let offset = j * interval;
            let start = draft_start.plus_seconds(offset);
            let end = start.plus_seconds(interval);
            let timespan = DieselTimespan::new(start, end);
            let choice = ApiDraftChoice::new(t.fantasy_team_id, t.team_draft_id, timespan);
            choices.push(choice);
            j = j + 1;
            x = x + 1;
        }
        assert((round + 1) * m == round * m + m) by (nonlinear_arith);
        round = round + 1;
    }
    choices
}

/// One planned draft: the draft, its teams in draft order, and its turns.
#[derive(Debug, Clone)]
pub struct DraftPlan {
    pub draft: Draft,
    pub team_drafts: Vec<TeamDraft>,
    pub choices: Vec<ApiDraftChoice>,
}

/// `plan` is the `d`-th draft of a period: its teams are `group`, in order,
/// and its turns follow `choices_follow` from the period's draft start.
pub open spec fn plan_follows(
    plan: DraftPlan,
    period_id: u128,
    group: Seq<u128>,
    squad_size: int,
    draft_start: Timestamp,
    interval: int,
) -> bool {
    &&& plan.draft.period_id == period_id
    &&& plan.draft.meta@ == "{}"@
    &&& plan.team_drafts@.len() == group.len()
    &&& forall|x: int| 0 <= x < group.len() ==> (#[trigger] plan.team_drafts@[x]).draft_id == plan.draft.draft_id
        && plan.team_drafts@[x].fantasy_team_id == group[x]
    &&& choices_follow(plan.team_drafts@, squad_size, draft_start, interval, plan.choices@)
}

/// `plan` is the `d`-th of `nd` drafts of a period whose teams are `teams`.
pub open spec fn plan_of_period(
    plan: DraftPlan,
    teams: Seq<u128>,
    nd: int,
    d: int,
    period_id: u128,
    squad_size: int,
    draft_start: Timestamp,
    interval: int,
) -> bool {
    exists|group: Seq<u128>| groups_follow(teams, nd, d, group) && plan_follows(plan, period_id, group, squad_size, draft_start, interval)
}

/// Splits a period's teams (already in random order) into drafts and plans
/// each draft's turns: team `i` joins draft `i % n` (`n` from `num_drafts`),
/// and each draft runs `squad_size` snake-order rounds, one time slot of
/// `draft_interval_secs` per turn from `draft_start`. All identifiers are fresh.
pub fn generate_drafts(
    period_id: u128,
    teams_per_draft: i32,
    draft_start: Timestamp,
    draft_interval_secs: i32,
    teams: &Vec<u128>,
    squad_size: usize,
) -> (plans: Vec<DraftPlan>)
    requires
        teams@.len() > 0,
        teams_per_draft != 0,
        draft_times_fit(draft_start, draft_interval_secs as int, squad_size * largest_draft(teams@.len() as int, teams_per_draft as int)),
    ensures
        plans@.len() == num_drafts(teams@.len() as int, teams_per_draft as int),
        forall|d: int| 0 <= d < plans@.len() ==> #[trigger] plan_of_period(plans@[d], teams@, plans@.len() as int, d, period_id, squad_size as int, draft_start, draft_interval_secs as int),
{
    let groups = draft_groups(teams, teams_per_draft);
    let nd = groups.len();
    let mut plans: Vec<DraftPlan> = Vec::new();
    let mut d: usize = 0;
    while d < nd
        invariant
            nd == groups@.len(),
            nd == num_drafts(teams@.len() as int, teams_per_draft as int),
            teams@.len() > 0,
            draft_times_fit(draft_start, draft_interval_secs as int, squad_size * largest_draft(teams@.len() as int, teams_per_draft as int)),
            forall|e: int| 0 <= e < nd ==> groups_follow(teams@, nd as int, e, (#[trigger] groups@[e])@),
            d <= nd,
            plans@.len() == d,
            forall|e: int| 0 <= e < d ==> plan_follows(#[trigger] plans@[e], period_id, groups@[e]@, squad_size as int, draft_start, draft_interval_secs as int),
        decreases nd - d,
    {
        let draft = Draft::new(period_id);
        let group = &groups[d];
        assert(groups_follow(teams@, nd as int, d as int, group@));
        let mut team_drafts: Vec<TeamDraft> = Vec::new();
        let mut x: usize = 0;
        while x < group.len()
            invariant
                x <= group@.len(),
                team_drafts@.len() == x,
                forall|y: int| 0 <= y < x ==> (#[trigger] team_drafts@[y]).draft_id == draft.draft_id
                    && team_drafts@[y].fantasy_team_id == group@[y],
            decreases group@.len() - x,
        {
            team_drafts.push(TeamDraft::new(draft.draft_id, group[x]));
            x = x + 1;
        }
        proof {
            let g = group@.len() as int;
            let n = teams@.len() as int;
            assert(member_at(teams@, nd as int, d as int, group@, g - 1));
            assert(d + (g - 1) * nd < n);
            let big = largest_draft(n, teams_per_draft as int);
            assert(big == (n - 1) / (nd as int) + 1);
            assert(g <= big) by (nonlinear_arith)
                requires d >= 0, nd >= 1, d + (g - 1) * nd < n, g >= 1, big == (n - 1) / (nd as int) + 1;
            assert(squad_size * g <= squad_size * big) by (nonlinear_arith)
                requires g <= big, squad_size >= 0;
            let a: int = if draft_interval_secs < 0 { -draft_interval_secs } else { draft_interval_secs as int };
            assert((squad_size * g - 1) * a <= (squad_size * big - 1) * a) by (nonlinear_arith)
                requires squad_size * g <= squad_size * big, a >= 0;
            assert(squad_size * g <= i64::MAX);
        }
        let choices = draft_choices(&team_drafts, squad_size, draft_start, draft_interval_secs);
        plans.push(DraftPlan { draft, team_drafts, choices });
        d = d + 1;
    }
    assert forall|d: int| 0 <= d < plans@.len() implies #[trigger] plan_of_period(plans@[d], teams@, plans@.len() as int, d, period_id, squad_size as int, draft_start, draft_interval_secs as int) by {
        assert(groups_follow(teams@, plans@.len() as int, d, groups@[d]@));
        assert(plan_follows(plans@[d], period_id, groups@[d]@, squad_size as int, draft_start, draft_interval_secs as int));
    }
    plans
}


/// What one pass of a scheduling loop does: handle the first `due` items of
/// its (deadline-ordered) list, then wait until `wake_at`, or, with `None`,
/// until something notifies it.
#[derive(Debug, Clone, Copy, PartialEq, Eq, Structural)]
pub struct SchedulerStep {
    pub due: usize,
    pub wake_at: Option<Timestamp>,
}

/// `step` handles the leading items whose deadline has passed and stops at the
/// first one still to come, which it waits for.
pub open spec fn step_follows(deadlines: Seq<Timestamp>, now: Timestamp, step: SchedulerStep) -> bool {
    &&& step.due <= deadlines.len()
    &&& forall|i: int| 0 <= i < step.due ==> (#[trigger] deadlines[i]).spec_before(now)
    &&& step.due < deadlines.len() ==> !deadlines[step.due as int].spec_before(now) && step.wake_at == Some(deadlines[step.due as int])
    &&& step.due == deadlines.len() ==> step.wake_at is None
}

/// One pass of the draft builder over the periods that have no drafts yet,
/// ordered by their draft lockdown: every period whose lockdown has passed
/// gets its drafts, up to the first period still locked down, whose lockdown
/// the builder then waits for.
pub fn draft_builder_step(draft_lockdowns: &Vec<Timestamp>, now: Timestamp) -> (step: SchedulerStep)
    ensures
        step_follows(draft_lockdowns@, now, step),
{
    let mut i: usize = 0;
    while i < draft_lockdowns.len()
        invariant
            i <= draft_lockdowns@.len(),
            forall|j: int| 0 <= j < i ==> (#[trigger] draft_lockdowns@[j]).spec_before(now),
        decreases draft_lockdowns@.len() - i,
    {
        if !draft_lockdowns[i].before(&now) {
            return SchedulerStep { due: i, wake_at: Some(draft_lockdowns[i]) };
        }
        i = i + 1;
    }
    SchedulerStep { due: i, wake_at: None }
}

/// The deadline of a draft turn: the end of its timespan.
pub open spec fn turn_deadlines(turns: Seq<DieselTimespan>) -> Seq<Timestamp> {
    turns.map_values(|t: DieselTimespan| t.1.spec_instant())
}

/// Whether a league's teams are as large as its squads.
pub open spec fn straight_into_team(league: League) -> bool {
    league.team_size == league.squad_size
}

/// Whether a league's picks go straight into the team: when its teams are as
/// large as its squads, every squad player plays.
pub fn picks_go_straight_into_team(league: &League) -> (r: bool)
    ensures
        r == straight_into_team(*league),
{
    league.team_size == league.squad_size
}

/// What the draft handler does with one turn whose time slot has ended.
#[derive(Debug, Clone)]
pub enum TurnOutcome {
    /// A player cache is not loaded yet: the turn is left for a later pass.
    CachesNotReady,
    /// A pick was made; `announce` is what the draft's subscribers are sent.
    Picked { pick: Pick, active: Option<ActivePick>, announce: ApiPick },
    /// No player was left to pick.
    NoPick(NoValidPicksError),
}

/// The pick result inside a turn's outcome.
pub open spec fn turn_pick_result(o: TurnOutcome) -> Result<(Pick, Option<ActivePick>), NoValidPicksError> {
    match o {
        TurnOutcome::Picked { pick, active, announce } => Ok((pick, active)),
        TurnOutcome::NoPick(e) => Err(e),
        TurnOutcome::CachesNotReady => Err(NoValidPicksError {}),
    }
}

/// Handles a turn whose time slot has ended, as the draft handler does: with
/// either player cache missing, nothing happens; otherwise the team whose
/// turn it is picks (see `pick_from_queue_or_random`), the pick belonging to
/// the team for the period's timespan, made active at once when the league's
/// teams are its squads, and limited by the league's squad limits; a pick is
/// then announced to the draft.
pub fn handle_due_turn(
    team_draft: &TeamDraft,
    unchosen: DraftChoice,
    period_timespan: DieselTimespan,
    draft_queue: Option<Vec<u128>>,
    valid_remaining_players: &Vec<u128>,
    current_squad: &Vec<u128>,
    league: &League,
    max_squad_players_same_position: &PositionMap,
    player_position_cache: &Option<HashMap<u128, String>>,
    player_team_cache: &Option<HashMap<u128, u128>>,
) -> (o: TurnOutcome)
    requires
        current_squad@.len() <= i32::MAX,
        max_squad_players_same_position.wf(),
    ensures
        (player_position_cache is None || player_team_cache is None) <==> o is CachesNotReady,
        (player_position_cache is Some && player_team_cache is Some) ==> exists|missing_team: u128|
            #[trigger] pick_outcome(
                team_draft.fantasy_team_id,
                unchosen,
                period_timespan,
                draft_queue,
                valid_remaining_players@,
                current_squad@,
                player_position_cache.unwrap()@,
                player_team_cache.unwrap()@,
                missing_team,
                league.max_squad_players_same_team,
                *max_squad_players_same_position,
                straight_into_team(*league),
                turn_pick_result(o),
            ),
        o matches TurnOutcome::Picked { pick, active, announce } ==> announce == (ApiPick {
            pick_id: pick.pick_id,
            player_id: pick.player_id,
            timespan: pick.timespan,
            fantasy_team_id: Some(pick.fantasy_team_id),
            draft_id: Some(team_draft.draft_id),
        }),
{
    match (player_position_cache, player_team_cache) {
        (Some(pc), Some(tc)) => {
            let straight = picks_go_straight_into_team(league);
            match pick_from_queue_or_random(
                team_draft.fantasy_team_id,
                unchosen,
                period_timespan,
                draft_queue,
                valid_remaining_players,
                current_squad,
                &league.max_squad_players_same_team,
                max_squad_players_same_position,
                straight,
                pc,
                tc,
            ) {
                Ok((pick, active)) => {
                    let announce = ApiPick::from_pick(pick, team_draft.draft_id);
                    TurnOutcome::Picked { pick, active, announce }
                },
                Err(e) => TurnOutcome::NoPick(e),
            }
        },
        _ => TurnOutcome::CachesNotReady,
    }
}

/// One pass of the draft handler over the turns no one has picked in, in
/// order: every turn whose time slot has ended is picked for, up to the first
/// turn still running or to come, whose end the handler then waits for. Only
/// the turns the pass reaches need a bounded end.
pub fn draft_handler_step(unchosen_turns: &Vec<DieselTimespan>, now: Timestamp) -> (step: SchedulerStep)
    requires
        forall|i: int|
            0 <= i < unchosen_turns@.len() && (forall|j: int| 0 <= j < i ==> (#[trigger] unchosen_turns@[j]).1.spec_instant().spec_before(now))
                ==> (#[trigger] unchosen_turns@[i]).1.is_bounded(),
    ensures
        step_follows(turn_deadlines(unchosen_turns@), now, step),
{
    let ghost deadlines = turn_deadlines(unchosen_turns@);
    let mut i: usize = 0;
    while i < unchosen_turns.len()
        invariant
            deadlines == turn_deadlines(unchosen_turns@),
            i <= unchosen_turns@.len(),
            forall|j: int| 0 <= j < i ==> (#[trigger] unchosen_turns@[j]).1.spec_instant().spec_before(now),
            forall|i: int|
                0 <= i < unchosen_turns@.len() && (forall|j: int| 0 <= j < i ==> (#[trigger] unchosen_turns@[j]).1.spec_instant().spec_before(now))
                    ==> (#[trigger] unchosen_turns@[i]).1.is_bounded(),
        decreases unchosen_turns@.len() - i,
    {
        let end = unchosen_turns[i].upper();
        if !end.before(&now) {
            let step = SchedulerStep { due: i, wake_at: Some(end) };
            assert forall|j: int| 0 <= j < step.due implies (#[trigger] deadlines[j]).spec_before(now) by {
                assert(deadlines[j] == unchosen_turns@[j].1.spec_instant());
            }
            return step;
        }
        i = i + 1;
    }
    let step = SchedulerStep { due: i, wake_at: None };
    assert forall|j: int| 0 <= j < step.due implies (#[trigger] deadlines[j]).spec_before(now) by {
        assert(deadlines[j] == unchosen_turns@[j].1.spec_instant());
    }
    step
}

/// A list with every run of equal neighbours collapsed into one element.
pub open spec fn dedup_runs(s: Seq<u128>) -> Seq<u128>
    decreases s.len(),
{
    if s.len() == 0 {
        s
    } else {
        let r = dedup_runs(s.drop_last());
        if r.len() > 0 && r.last() == s.last() {
            r
        } else {
            r.push(s.last())
        }
    }
}

/// The leagues whose position limits a handler pass loads: the leagues of the
/// unchosen turns, in order, with runs of the same league taken once.
pub fn leagues_to_load(league_ids: &Vec<u128>) -> (r: Vec<u128>)
    ensures
        r@ == dedup_runs(league_ids@),
{
    let mut out: Vec<u128> = Vec::new();
    let mut i: usize = 0;
    assert(league_ids@.take(0) =~= Seq::<u128>::empty());
    while i < league_ids.len()
        invariant
            i <= league_ids@.len(),
            out@ == dedup_runs(league_ids@.take(i as int)),
            out@.len() > 0 ==> i > 0 && out@.last() == league_ids@[i - 1],
        decreases league_ids@.len() - i,
    {
        let id = league_ids[i];
        assert(league_ids@.take(i + 1).drop_last() =~= league_ids@.take(i as int));
        if out.len() == 0 || out[out.len() - 1] != id {
            out.push(id);
        }
        i = i + 1;
    }
    assert(league_ids@.take(league_ids@.len() as int) =~= league_ids@);
    out
}


/// Every team of a period lands in exactly one draft: team `i` is the
/// `(i / n)`-th team of draft `i % n`, and no other slot holds team index `i`.
pub proof fn lemma_every_team_in_one_draft(
    plans: Seq<DraftPlan>,
    teams: Seq<u128>,
    period_id: u128,
    squad_size: int,
    draft_start: Timestamp,
    interval: int,
    i: int,
)
    requires
        plans.len() >= 1,
        forall|d: int| 0 <= d < plans.len() ==> #[trigger] plan_of_period(plans[d], teams, plans.len() as int, d, period_id, squad_size, draft_start, interval),
        0 <= i < teams.len(),
    ensures
        i / (plans.len() as int) < plans[i % (plans.len() as int)].team_drafts@.len(),
        plans[i % (plans.len() as int)].team_drafts@[i / (plans.len() as int)].fantasy_team_id == teams[i],
        forall|d: int, x: int| 0 <= d < plans.len() && 0 <= x && #[trigger] slot_index(d, x, plans.len() as int) == i ==> d == i % (plans.len() as int) && x == i / (plans.len() as int),
{
    let nd = plans.len() as int;
    let d = i % nd;
    let x = i / nd;
    vstd::arithmetic::div_mod::lemma_fundamental_div_mod(i, nd);
    assert(plan_of_period(plans[d], teams, nd, d, period_id, squad_size, draft_start, interval));
    let group = choose|group: Seq<u128>| groups_follow(teams, nd, d, group) && plan_follows(plans[d], period_id, group, squad_size, draft_start, interval);
    let g = group.len() as int;
    assert(x < g) by (nonlinear_arith)
        requires d + g * nd >= teams.len(), i < teams.len(), i == nd * x + d, nd >= 1;
    assert(member_at(teams, nd, d, group, x));
    assert(d + x * nd == i) by (nonlinear_arith)
        requires i == nd * x + d;
    assert forall|d2: int, x2: int| 0 <= d2 < nd && 0 <= x2 && #[trigger] slot_index(d2, x2, nd) == i implies d2 == d && x2 == x by {
        vstd::arithmetic::div_mod::lemma_fundamental_div_mod_converse(i, nd, x2, d2);
    }
}

/// No draft holds more than `teams_per_draft` teams, and any two drafts of a
/// period differ in size by at most one team.
pub proof fn lemma_draft_sizes(
    plans: Seq<DraftPlan>,
    teams: Seq<u128>,
    teams_per_draft: int,
    period_id: u128,
    squad_size: int,
    draft_start: Timestamp,
    interval: int,
    d1: int,
    d2: int,
)
    requires
        teams.len() > 0,
        teams_per_draft > 0,
        plans.len() == num_drafts(teams.len() as int, teams_per_draft),
        forall|d: int| 0 <= d < plans.len() ==> #[trigger] plan_of_period(plans[d], teams, plans.len() as int, d, period_id, squad_size, draft_start, interval),
        0 <= d1 < plans.len(),
        0 <= d2 < plans.len(),
    ensures
        plans[d1].team_drafts@.len() <= teams_per_draft,
        plans[d1].team_drafts@.len() <= plans[d2].team_drafts@.len() + 1,
{
    let nd = plans.len() as int;
    let n = teams.len() as int;
    assert(plan_of_period(plans[d1], teams, nd, d1, period_id, squad_size, draft_start, interval));
    assert(plan_of_period(plans[d2], teams, nd, d2, period_id, squad_size, draft_start, interval));
    let g1s = choose|group: Seq<u128>| groups_follow(teams, nd, d1, group) && plan_follows(plans[d1], period_id, group, squad_size, draft_start, interval);
    let g2s = choose|group: Seq<u128>| groups_follow(teams, nd, d2, group) && plan_follows(plans[d2], period_id, group, squad_size, draft_start, interval);
    let g1 = g1s.len() as int;
    let g2 = g2s.len() as int;
    assert(member_at(teams, nd, d1, g1s, g1 - 1));
    assert(nd * teams_per_draft >= n) by (nonlinear_arith)
        requires nd == (n - 1) / teams_per_draft + 1, teams_per_draft > 0, n > 0;
    assert(g1 <= teams_per_draft) by (nonlinear_arith)
        requires d1 + (g1 - 1) * nd < n, nd * teams_per_draft >= n, d1 >= 0, nd >= 1;
    assert(g1 <= g2 + 1) by (nonlinear_arith)
        requires d1 + (g1 - 1) * nd < n, d2 + g2 * nd >= n, 0 <= d1 < nd, 0 <= d2 < nd;
}

/// Each round of a draft is an ordering of its teams: every team has exactly
/// one turn per round. Rounds alternate direction, so the team that ends a
/// round also starts the next one.
pub proof fn lemma_snake_rounds(round: int, m: int)
    requires
        round >= 0,
        m > 0,
    ensures
        forall|x: int| 0 <= x < m ==> 0 <= #[trigger] snake_index(round, x, m) < m && snake_index(round, snake_index(round, x, m), m) == x,
        snake_index(round, m - 1, m) == snake_index(round + 1, 0, m),
{
    assert((round + 1) % 2 == 0 <==> round % 2 != 0);
}

/// The turns of a draft follow one another without gap or overlap: each turn
/// ends exactly when the next begins.
pub proof fn lemma_turns_back_to_back(start: Timestamp, interval: int, c: int)
    ensures
        choice_timespan(start, interval, c).1 == TimeBound::Excluded(
            choice_timespan(start, interval, c + 1).0.spec_instant(),
        ),
{
    assert(c * interval + interval == (c + 1) * interval) by (nonlinear_arith);
}

/// A pick only ever takes a player that is still available for the period.
pub proof fn lemma_pick_is_available(
    fantasy_team_id: u128,
    unchosen: DraftChoice,
    belongs_to_team_for: DieselTimespan,
    draft_queue: Option<Vec<u128>>,
    valid_remaining: Seq<u128>,
    squad: Seq<u128>,
    position_cache: Map<u128, String>,
    team_cache: Map<u128, u128>,
    missing_team: u128,
    max_same_team: i32,
    max_per_position: PositionMap,
    pick_straight_into_team: bool,
    pick: Pick,
    active: Option<ActivePick>,
)
    requires
        pick_outcome(fantasy_team_id, unchosen, belongs_to_team_for, draft_queue, valid_remaining, squad, position_cache, team_cache, missing_team, max_same_team, max_per_position, pick_straight_into_team, Ok((pick, active))),
    ensures
        valid_remaining.contains(pick.player_id),
{
    if queue_has_allowed(draft_queue, valid_remaining, squad, position_cache, team_cache, missing_team, max_same_team, max_per_position) {
        let k = choose|k: int| first_allowed_at(draft_queue->Some_0@, k, valid_remaining, squad, position_cache, team_cache, missing_team, max_same_team, max_per_position) && draft_queue->Some_0@[k] == pick.player_id;
    }
}

/// When the list is ordered by deadline, a scheduling pass handles exactly the
/// items whose deadline has passed: none of the items it leaves is overdue.
pub proof fn lemma_step_handles_all_overdue(deadlines: Seq<Timestamp>, now: Timestamp, step: SchedulerStep)
    requires
        forall|i: int, j: int| 0 <= i < j < deadlines.len() ==> (#[trigger] deadlines[i]).spec_not_after(#[trigger] deadlines[j]),
        step_follows(deadlines, now, step),
    ensures
        forall|i: int| 0 <= i < deadlines.len() ==> ((#[trigger] deadlines[i]).spec_before(now) <==> i < step.due),
{
    assert forall|i: int| 0 <= i < deadlines.len() implies ((#[trigger] deadlines[i]).spec_before(now) <==> i < step.due) by {
        if i > step.due {
            assert(deadlines[step.due as int].spec_not_after(deadlines[i]));
        }
    }
}

/// A position the league sets no limit for allows 99 players; a position
/// it does limit allows the league's number.
pub proof fn lemma_position_limit_default(max_per_position: PositionMap, position: Seq<char>)
    requires
        max_per_position.wf(),
    ensures
        !max_per_position.has(position) ==> position_limit(max_per_position, position) == 99,
        forall|i: int| 0 <= i < max_per_position.positions@.len() && #[trigger] max_per_position.positions@[i]@ == position
            ==> position_limit(max_per_position, position) == max_per_position.values@[i],
{
    assert forall|i: int| 0 <= i < max_per_position.positions@.len() && #[trigger] max_per_position.positions@[i]@ == position
        implies position_limit(max_per_position, position) == max_per_position.values@[i] by {
        let c = choose|j: int| 0 <= j < max_per_position.positions@.len() && #[trigger] max_per_position.positions@[j]@ == position;
        if c != i {
            if c < i {
                assert(max_per_position.positions@[c]@ != max_per_position.positions@[i]@);
            } else {
                assert(max_per_position.positions@[i]@ != max_per_position.positions@[c]@);
            }
        }
    }
}

/// A team whose players all play positions the league sets no limit for,
/// at most 99 of them per position, breaks no position limit: it is valid
/// exactly when it keeps to the size and the per-team limits. So
/// `verify_teams` and `check_active_picks` accept such teams when those two
/// limits hold.
pub proof fn lemma_unlisted_positions_allow_99(
    players: Seq<u128>,
    position_cache: Map<u128, String>,
    team_cache: Map<u128, u128>,
    missing_team: u128,
    max_same_team: i32,
    max_per_position: PositionMap,
    max_team_size: i32,
)
    requires
        max_per_position.wf(),
        forall|k: int| 0 <= k < players.len() ==> !max_per_position.has(#[trigger] position_of(position_cache, players[k])),
        forall|p: Seq<char>| #[trigger] position_count(players, position_cache, p) <= 99,
    ensures
        team_is_valid(players, position_cache, team_cache, missing_team, max_same_team, max_per_position, max_team_size)
            <==> (players.len() <= max_team_size && !breaks_team_limit(players, team_cache, missing_team, max_same_team)),
{
    assert forall|p: Seq<char>| !breaks_position_limit(players, position_cache, max_per_position, p) by {
        if exists|k: int| 0 <= k < players.len() && #[trigger] position_of(position_cache, players[k]) == p {
            let k = choose|k: int| 0 <= k < players.len() && #[trigger] position_of(position_cache, players[k]) == p;
            assert(!max_per_position.has(position_of(position_cache, players[k])));
            lemma_position_limit_default(max_per_position, p);
            assert(position_count(players, position_cache, p) <= 99);
        }
    }
}

/// A team is valid exactly when it holds at most `max_team_size` players,
/// each player's position holds no more players than that position's limit
/// (99 when the league sets none), and each player's real team holds no more
/// than `max_same_team` of them; a team with no players counts its largest
/// real team as 0, so it needs `max_same_team` to be at least 0.
pub proof fn lemma_team_valid_iff_within_limits(
    players: Seq<u128>,
    position_cache: Map<u128, String>,
    team_cache: Map<u128, u128>,
    missing_team: u128,
    max_same_team: i32,
    max_per_position: PositionMap,
    max_team_size: i32,
)
    ensures
        team_is_valid(players, position_cache, team_cache, missing_team, max_same_team, max_per_position, max_team_size) <==> {
            &&& players.len() <= max_team_size
            &&& forall|k: int| 0 <= k < players.len() ==> #[trigger] position_count(players, position_cache, position_of(position_cache, players[k]))
                <= max_per_position.spec_get_or(position_of(position_cache, players[k]), 99)
            &&& forall|k: int| 0 <= k < players.len() ==> #[trigger] team_count(players, team_cache, missing_team, team_of(team_cache, missing_team, players[k]))
                <= max_same_team
            &&& players.len() == 0 ==> 0 <= max_same_team
        },
{
    let within_positions = forall|k: int| 0 <= k < players.len() ==> #[trigger] position_count(players, position_cache, position_of(position_cache, players[k]))
        <= max_per_position.spec_get_or(position_of(position_cache, players[k]), 99);
    if within_positions {
        assert forall|p: Seq<char>| !breaks_position_limit(players, position_cache, max_per_position, p) by {
            if exists|k: int| 0 <= k < players.len() && #[trigger] position_of(position_cache, players[k]) == p {
                let k = choose|k: int| 0 <= k < players.len() && #[trigger] position_of(position_cache, players[k]) == p;
                assert(position_count(players, position_cache, position_of(position_cache, players[k]))
                    <= max_per_position.spec_get_or(position_of(position_cache, players[k]), 99));
            }
        }
    } else {
        let k = choose|k: int| 0 <= k < players.len() && !(#[trigger] position_count(players, position_cache, position_of(position_cache, players[k]))
            <= max_per_position.spec_get_or(position_of(position_cache, players[k]), 99));
        assert(breaks_position_limit(players, position_cache, max_per_position, position_of(position_cache, players[k])));
    }
}

} // verus!
