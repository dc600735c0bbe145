//! Keeps the player caches that drafting relies on: each player's current
//! real-life team and position, from the results server's team messages.
use vstd::prelude::*;
use std::collections::HashMap;
use crate::timespan::Timestamp;
use crate::fantasy::types::team_hierarchy::{ApiTeamPlayerOut, ApiTeamWithPlayersHierarchy, ApiPlayerPosition};

verus! {

broadcast use vstd::std_specs::hash::group_hash_axioms;

/// A map after inserting `events` in order; a later insert of a key replaces
/// an earlier one.
pub open spec fn apply_inserts<V>(m: Map<u128, V>, events: Seq<(u128, V)>) -> Map<u128, V>
    decreases events.len(),
{
    if events.len() == 0 {
        m
    } else {
        apply_inserts(m, events.drop_last()).insert(events.last().0, events.last().1)
    }
}

/// (player, team) for each of `memberships`, in order, that holds at `time`.
pub open spec fn membership_events(memberships: Seq<ApiTeamPlayerOut>, team_id: u128, time: Timestamp) -> Seq<(u128, u128)>
    decreases memberships.len(),
{
    if memberships.len() == 0 {
        Seq::empty()
    } else {
        let rest = membership_events(memberships.drop_last(), team_id, time);
        let m = memberships.last();
        if m.timespan.spec_contains(time) {
            rest.push((m.player.player_id, team_id))
        } else {
            rest
        }
    }
}

/// (player, position) for each of a player's `positions`, in order, that holds at `time`.
pub open spec fn position_list_events(positions: Seq<ApiPlayerPosition>, player_id: u128, time: Timestamp) -> Seq<(u128, String)>
    decreases positions.len(),
{
    if positions.len() == 0 {
        Seq::empty()
    } else {
        let rest = position_list_events(positions.drop_last(), player_id, time);
        let p = positions.last();
        if p.timespan.spec_contains(time) {
            rest.push((player_id, p.position))
        } else {
            rest
        }
    }
}

/// The position events of one membership's player (whether or not the
/// membership itself holds at `time`).
pub open spec fn member_position_events(m: ApiTeamPlayerOut, time: Timestamp) -> Seq<(u128, String)> {
    match m.player.positions {
        Some(ps) => position_list_events(ps@, m.player.player_id, time),
        None => Seq::empty(),
    }
}

/// The position events of all `memberships`, in order.
pub open spec fn memberships_position_events(memberships: Seq<ApiTeamPlayerOut>, time: Timestamp) -> Seq<(u128, String)>
    decreases memberships.len(),
{
    if memberships.len() == 0 {
        Seq::empty()
    } else {
        memberships_position_events(memberships.drop_last(), time) + member_position_events(memberships.last(), time)
    }
}

/// The team events of a team: its players that belong to it at `time`.
pub open spec fn team_team_events(t: ApiTeamWithPlayersHierarchy, time: Timestamp) -> Seq<(u128, u128)> {
    match t.players {
        Some(ps) => membership_events(ps@, t.team_id, time),
        None => Seq::empty(),
    }
}

/// The position events of a team's players.
pub open spec fn team_position_events(t: ApiTeamWithPlayersHierarchy, time: Timestamp) -> Seq<(u128, String)> {
    match t.players {
        Some(ps) => memberships_position_events(ps@, time),
        None => Seq::empty(),
    }
}

/// All (player, team) events of a message, team by team, in order.
pub open spec fn team_events(teams: Seq<ApiTeamWithPlayersHierarchy>, time: Timestamp) -> Seq<(u128, u128)>
    decreases teams.len(),
{
    if teams.len() == 0 {
        Seq::empty()
    } else {
        team_events(teams.drop_last(), time) + team_team_events(teams.last(), time)
    }
}

/// All (player, position) events of a message, team by team, in order.
pub open spec fn position_events(teams: Seq<ApiTeamWithPlayersHierarchy>, time: Timestamp) -> Seq<(u128, String)>
    decreases teams.len(),
{
    if teams.len() == 0 {
        Seq::empty()
    } else {
        position_events(teams.drop_last(), time) + team_position_events(teams.last(), time)
    }
}

/// The map a cache holds, an absent cache counting as empty.
pub open spec fn cache_or_empty<V>(cache: Option<HashMap<u128, V>>) -> Map<u128, V> {
    match cache {
        Some(m) => m@,
        None => Map::empty(),
    }
}

/// Inserting two lists of events one after the other is inserting their concatenation.
pub proof fn lemma_apply_inserts_concat<V>(m: Map<u128, V>, a: Seq<(u128, V)>, b: Seq<(u128, V)>)
    ensures
        apply_inserts(m, a + b) == apply_inserts(apply_inserts(m, a), b),
    decreases b.len(),
{
    if b.len() == 0 {
        assert(a + b =~= a);
    } else {
        lemma_apply_inserts_concat(m, a, b.drop_last());
        assert((a + b).drop_last() =~= a + b.drop_last());
    }
}

/// The value of the last event for `key`, if any.
pub open spec fn last_event<V>(events: Seq<(u128, V)>, key: u128) -> Option<V>
    decreases events.len(),
{
    if events.len() == 0 {
        None
    } else if events.last().0 == key {
        Some(events.last().1)
    } else {
        last_event(events.drop_last(), key)
    }
}

/// A cache updated with events holds, for each player, the value of the
/// player's last event; a player no event mentions keeps what it had.
pub proof fn lemma_cache_keeps_last_event<V>(m: Map<u128, V>, events: Seq<(u128, V)>, key: u128)
    ensures
        apply_inserts(m, events).contains_key(key) <==> (last_event(events, key) is Some || m.contains_key(key)),
        last_event(events, key) matches Some(v) ==> apply_inserts(m, events)[key] == v,
        last_event(events, key) is None && m.contains_key(key) ==> apply_inserts(m, events)[key] == m[key],
    decreases events.len(),
{
    if events.len() > 0 {
        lemma_cache_keeps_last_event(m, events.drop_last(), key);
    }
}

/// Records each player's team and position at `time` from a message of teams
/// with players: a player belongs to team `t` when one of its memberships
/// under `t` holds at `time`, and plays a position when that position's
/// timespan holds `time`. Teams, memberships and positions are taken in
/// order, and a later entry for a player replaces an earlier one. Absent
/// caches start empty.
pub fn update_team_and_position_maps(
    teams_and_players: &Vec<ApiTeamWithPlayersHierarchy>,
    time: Timestamp,
    position_map_mut: &mut Option<HashMap<u128, String>>,
    team_map_mut: &mut Option<HashMap<u128, u128>>,
)
    ensures
        *final(position_map_mut) is Some,
        *final(team_map_mut) is Some,
        cache_or_empty(*final(team_map_mut)) == apply_inserts(cache_or_empty(*old(team_map_mut)), team_events(teams_and_players@, time)),
        cache_or_empty(*final(position_map_mut)) == apply_inserts(cache_or_empty(*old(position_map_mut)), position_events(teams_and_players@, time)),
{
    let ghost base_t = cache_or_empty(*old(team_map_mut));
    let ghost base_p = cache_or_empty(*old(position_map_mut));
    let mut positions: HashMap<u128, String> = match position_map_mut.take() {
        Some(m) => m,
        None => HashMap::new(),
    };
    let mut teams: HashMap<u128, u128> = match team_map_mut.take() {
        Some(m) => m,
        None => HashMap::new(),
    };
    let ghost all = teams_and_players@;
    let mut i: usize = 0;
    assert(all.take(0) =~= Seq::<ApiTeamWithPlayersHierarchy>::empty());
    while i < teams_and_players.len()
        invariant
            all == teams_and_players@,
            i <= all.len(),
            teams@ == apply_inserts(base_t, team_events(all.take(i as int), time)),
            positions@ == apply_inserts(base_p, position_events(all.take(i as int), time)),
        decreases all.len() - i,
    {
        let t = &teams_and_players[i];
        let team_id = t.team_id;
        let ghost tprefix = team_events(all.take(i as int), time);
        let ghost pprefix = position_events(all.take(i as int), time);
        assert(all.take(i + 1).drop_last() =~= all.take(i as int));
        assert(all.take(i + 1).last() == *t);
        if let Some(players) = &t.players {
            let ghost ps = players@;
            let mut j: usize = 0;
            assert(ps.take(0) =~= Seq::<ApiTeamPlayerOut>::empty());
            while j < players.len()
                invariant
                    ps == players@,
                    j <= ps.len(),
                    teams@ == apply_inserts(base_t, tprefix + membership_events(ps.take(j as int), team_id, time)),
                    positions@ == apply_inserts(base_p, pprefix + memberships_position_events(ps.take(j as int), time)),
                decreases ps.len() - j,
            {
                let tp = &players[j];
                let player_id = tp.player.player_id;
                assert(ps.take(j + 1).drop_last() =~= ps.take(j as int));
                assert(ps.take(j + 1).last() == *tp);
                proof {
                    lemma_apply_inserts_concat(base_t, tprefix, membership_events(ps.take(j as int), team_id, time));
                    lemma_apply_inserts_concat(base_t, tprefix, membership_events(ps.take(j + 1), team_id, time));
                }
                let ghost tev = membership_events(ps.take(j as int), team_id, time);
                if tp.timespan.contains(&time) {
                    teams.insert(player_id, team_id);
                    proof {
                        let tev1 = membership_events(ps.take(j + 1), team_id, time);
                        assert(tev1 == tev.push((player_id, team_id)));
                        assert(tev1.drop_last() =~= tev);
                    }
                }
                let ghost before_positions = positions@;
                let ghost pevents = memberships_position_events(ps.take(j as int), time);
                let ghost mine = member_position_events(*tp, time);
                proof {
                    lemma_apply_inserts_concat(base_p, pprefix, pevents);
                }
                if let Some(pos_list) = &tp.player.positions {
                    let ghost pl = pos_list@;
                    let mut k: usize = 0;
                    assert(pl.take(0) =~= Seq::<ApiPlayerPosition>::empty());
                    while k < pos_list.len()
                        invariant
                            pl == pos_list@,
                            k <= pl.len(),
                            positions@ == apply_inserts(before_positions, position_list_events(pl.take(k as int), player_id, time)),
                        decreases pl.len() - k,
                    {
                        let pos = &pos_list[k];
                        assert(pl.take(k + 1).drop_last() =~= pl.take(k as int));
                        assert(pl.take(k + 1).last() == *pos);
                        let ghost pev = position_list_events(pl.take(k as int), player_id, time);
                        if pos.timespan.contains(&time) {
                            positions.insert(player_id, pos.position.clone());
                            proof {
                                let pev1 = position_list_events(pl.take(k + 1), player_id, time);
                                assert(pev1 == pev.push((player_id, pos.position)));
                                assert(pev1.drop_last() =~= pev);
                            }
                        }
                        k = k + 1;
                    }
                    assert(pl.take(pl.len() as int) =~= pl);
                }
                proof {
                    assert(mine == member_position_events(ps.take(j + 1).last(), time));
                    assert(memberships_position_events(ps.take(j + 1), time) == pevents + mine);
                    lemma_apply_inserts_concat(apply_inserts(base_p, pprefix), pevents, mine);
                    lemma_apply_inserts_concat(base_p, pprefix, pevents + mine);
                    lemma_apply_inserts_concat(base_p, pprefix, memberships_position_events(ps.take(j + 1), time));
                }
                j = j + 1;
            }
            assert(ps.take(ps.len() as int) =~= ps);
        }
        proof {
            assert(team_events(all.take(i + 1), time) == tprefix + team_team_events(*t, time));
            assert(position_events(all.take(i + 1), time) == pprefix + team_position_events(*t, time));
            if t.players is None {
                assert(tprefix + team_team_events(*t, time) =~= tprefix);
                assert(pprefix + team_position_events(*t, time) =~= pprefix);
            }
        }
        i = i + 1;
    }
    assert(all.take(all.len() as int) =~= all);
    *position_map_mut = Some(positions);
    *team_map_mut = Some(teams);
}

/// Whether `(i, j)` names the `j`-th membership of the `i`-th team.
pub open spec fn is_membership(teams: Seq<ApiTeamWithPlayersHierarchy>, i: int, j: int) -> bool {
    &&& 0 <= i < teams.len()
    &&& teams[i].players is Some
    &&& 0 <= j < teams[i].players.unwrap()@.len()
}

/// The `j`-th membership of the `i`-th team.
pub open spec fn membership(teams: Seq<ApiTeamWithPlayersHierarchy>, i: int, j: int) -> ApiTeamPlayerOut {
    teams[i].players.unwrap()@[j]
}

/// Whether some membership of the message says `player` plays for `team` at `time`.
pub open spec fn plays_for_at(teams: Seq<ApiTeamWithPlayersHierarchy>, time: Timestamp, player: u128, team: u128) -> bool {
    exists|i: int, j: int| #[trigger] is_membership(teams, i, j)
        && membership(teams, i, j).timespan.spec_contains(time)
        && membership(teams, i, j).player.player_id == player
        && teams[i].team_id == team
}

/// Whether some membership of the message says `player` plays for some team at `time`.
pub open spec fn plays_at(teams: Seq<ApiTeamWithPlayersHierarchy>, time: Timestamp, player: u128) -> bool {
    exists|i: int, j: int| #[trigger] is_membership(teams, i, j)
        && membership(teams, i, j).timespan.spec_contains(time)
        && membership(teams, i, j).player.player_id == player
}

/// Whether event `e` is the `j`-th membership's (player, team) and that
/// membership holds at `time`.
pub open spec fn current_event(ps: Seq<ApiTeamPlayerOut>, j: int, team_id: u128, time: Timestamp, e: (u128, u128)) -> bool {
    &&& 0 <= j < ps.len()
    &&& ps[j].timespan.spec_contains(time)
    &&& e == (ps[j].player.player_id, team_id)
}

/// Which membership the `k`-th event of a membership list comes from.
spec fn event_source(ps: Seq<ApiTeamPlayerOut>, team_id: u128, time: Timestamp, k: int) -> int
    decreases ps.len(),
{
    if ps.len() == 0 {
        0
    } else if k < membership_events(ps.drop_last(), team_id, time).len() {
        event_source(ps.drop_last(), team_id, time, k)
    } else {
        ps.len() - 1
    }
}

proof fn lemma_membership_events_exact(ps: Seq<ApiTeamPlayerOut>, team_id: u128, time: Timestamp)
    ensures
        forall|k: int| 0 <= k < membership_events(ps, team_id, time).len()
            ==> current_event(ps, event_source(ps, team_id, time, k), team_id, time, #[trigger] membership_events(ps, team_id, time)[k]),
        forall|j: int| 0 <= j < ps.len() && (#[trigger] ps[j]).timespan.spec_contains(time)
            ==> membership_events(ps, team_id, time).contains((ps[j].player.player_id, team_id)),
    decreases ps.len(),
{
    if ps.len() > 0 {
        let rest = ps.drop_last();
        lemma_membership_events_exact(rest, team_id, time);
        let ev = membership_events(ps, team_id, time);
        let rev = membership_events(rest, team_id, time);
        assert forall|k: int| 0 <= k < ev.len()
            implies current_event(ps, event_source(ps, team_id, time, k), team_id, time, #[trigger] ev[k]) by {
            if k < rev.len() {
                assert(ev[k] == rev[k]);
                let j = event_source(rest, team_id, time, k);
                assert(current_event(rest, j, team_id, time, rev[k]));
                assert(ps[j] == rest[j]);
            } else {
                let j = ps.len() - 1;
                assert(ps[j] == ps.last());
            }
        }
        assert forall|j: int| 0 <= j < ps.len() && (#[trigger] ps[j]).timespan.spec_contains(time)
            implies ev.contains((ps[j].player.player_id, team_id)) by {
            if j < ps.len() - 1 {
                assert(ps[j] == rest[j]);
                let k = choose|k: int| 0 <= k < rev.len() && rev[k] == (rest[j].player.player_id, team_id);
                assert(ev[k] == rev[k]);
            } else {
                assert(ev[ev.len() - 1] == (ps[j].player.player_id, team_id));
            }
        }
    }
}

/// The team events of a message are exactly the memberships that hold at
/// `time`: every (player, team) event comes from a membership of that
/// player in that team whose timespan contains `time`, and every such
/// membership gives an event.
pub proof fn lemma_team_events_are_current_memberships(teams: Seq<ApiTeamWithPlayersHierarchy>, time: Timestamp)
    ensures
        forall|k: int| 0 <= k < team_events(teams, time).len()
            ==> plays_for_at(teams, time, #[trigger] team_events(teams, time)[k].0, team_events(teams, time)[k].1),
        forall|i: int, j: int| #[trigger] is_membership(teams, i, j) && membership(teams, i, j).timespan.spec_contains(time)
            ==> team_events(teams, time).contains((membership(teams, i, j).player.player_id, teams[i].team_id)),
    decreases teams.len(),
{
    if teams.len() > 0 {
        let rest = teams.drop_last();
        let last = teams.last();
        let n = teams.len() - 1;
        lemma_team_events_are_current_memberships(rest, time);
        let ev = team_events(teams, time);
        let rev = team_events(rest, time);
        let tev = team_team_events(last, time);
        assert(ev == rev + tev);
        if let Some(ps) = last.players {
            lemma_membership_events_exact(ps@, last.team_id, time);
        }
        assert forall|k: int| 0 <= k < ev.len()
            implies plays_for_at(teams, time, #[trigger] ev[k].0, ev[k].1) by {
            if k < rev.len() {
                assert(ev[k] == rev[k]);
                assert(plays_for_at(rest, time, rev[k].0, rev[k].1));
                let (i, j) = choose|i: int, j: int| #[trigger] is_membership(rest, i, j)
                    && membership(rest, i, j).timespan.spec_contains(time)
                    && membership(rest, i, j).player.player_id == rev[k].0
                    && rest[i].team_id == rev[k].1;
                assert(teams[i] == rest[i]);
                assert(is_membership(teams, i, j));
            } else {
                let ps = last.players.unwrap();
                assert(ev[k] == tev[k - rev.len()]);
                let j = event_source(ps@, last.team_id, time, k - rev.len());
                assert(current_event(ps@, j, last.team_id, time, tev[k - rev.len()]));
                assert(teams[n] == last);
                assert(is_membership(teams, n, j));
            }
        }
        assert forall|i: int, j: int| #[trigger] is_membership(teams, i, j) && membership(teams, i, j).timespan.spec_contains(time)
            implies ev.contains((membership(teams, i, j).player.player_id, teams[i].team_id)) by {
            if i < n {
                assert(teams[i] == rest[i]);
                assert(is_membership(rest, i, j));
                let e = (membership(rest, i, j).player.player_id, rest[i].team_id);
                assert(rev.contains(e));
                let k = choose|k: int| 0 <= k < rev.len() && rev[k] == e;
                assert(ev[k] == rev[k]);
            } else {
                assert(teams[i] == last);
                let ps = last.players.unwrap();
                assert((ps@[j]).timespan.spec_contains(time));
                let e = (ps@[j].player.player_id, last.team_id);
                assert(tev.contains(e));
                let k = choose|k: int| 0 <= k < tev.len() && tev[k] == e;
                assert(ev[rev.len() + k] == tev[k]);
            }
        }
    }
}

proof fn lemma_last_event_is_an_event<V>(events: Seq<(u128, V)>, key: u128)
    ensures
        last_event(events, key) matches Some(v) ==> events.contains((key, v)),
        (exists|k: int| 0 <= k < events.len() && #[trigger] events[k].0 == key) ==> last_event(events, key) is Some,
    decreases events.len(),
{
    if events.len() > 0 {
        let rest = events.drop_last();
        lemma_last_event_is_an_event(rest, key);
        if let Some(v) = last_event(rest, key) {
            if events.last().0 != key {
                let k = choose|k: int| 0 <= k < rest.len() && rest[k] == (key, v);
                assert(events[k] == rest[k]);
            }
        }
        if events.last().0 == key {
            assert(events[events.len() - 1] == (key, events.last().1));
        }
        if exists|k: int| 0 <= k < events.len() && #[trigger] events[k].0 == key {
            let k = choose|k: int| 0 <= k < events.len() && #[trigger] events[k].0 == key;
            if k < rest.len() {
                assert(rest[k] == events[k]);
            }
        }
    }
}

/// After a team message, a player's cached team is a team it plays for at
/// `time` when some membership of the message holds at `time`; a player no
/// such membership mentions keeps its cache entry (or its absence) as it was.
pub proof fn lemma_team_cache_follows_current_memberships(
    old_cache: Map<u128, u128>,
    teams: Seq<ApiTeamWithPlayersHierarchy>,
    time: Timestamp,
    player: u128,
)
    ensures
        plays_at(teams, time, player) ==> {
            &&& apply_inserts(old_cache, team_events(teams, time)).contains_key(player)
            &&& plays_for_at(teams, time, player, apply_inserts(old_cache, team_events(teams, time))[player])
        },
        !plays_at(teams, time, player) ==> {
            &&& apply_inserts(old_cache, team_events(teams, time)).contains_key(player) == old_cache.contains_key(player)
            &&& old_cache.contains_key(player) ==> apply_inserts(old_cache, team_events(teams, time))[player] == old_cache[player]
        },
{
    let ev = team_events(teams, time);
    lemma_team_events_are_current_memberships(teams, time);
    lemma_cache_keeps_last_event(old_cache, ev, player);
    lemma_last_event_is_an_event(ev, player);
    if plays_at(teams, time, player) {
        let (i, j) = choose|i: int, j: int| #[trigger] is_membership(teams, i, j)
            && membership(teams, i, j).timespan.spec_contains(time)
            && membership(teams, i, j).player.player_id == player;
        let e = (player, teams[i].team_id);
        assert(ev.contains(e));
        let k = choose|k: int| 0 <= k < ev.len() && ev[k] == e;
        assert(ev[k].0 == player);
        let v = last_event(ev, player).unwrap();
        let k2 = choose|k2: int| 0 <= k2 < ev.len() && ev[k2] == (player, v);
        assert(plays_for_at(teams, time, ev[k2].0, ev[k2].1));
    } else {
        if last_event(ev, player) is Some {
            let v = last_event(ev, player).unwrap();
            let k2 = choose|k2: int| 0 <= k2 < ev.len() && ev[k2] == (player, v);
            assert(plays_for_at(teams, time, ev[k2].0, ev[k2].1));
            let (i, j) = choose|i: int, j: int| #[trigger] is_membership(teams, i, j)
                && membership(teams, i, j).timespan.spec_contains(time)
                && membership(teams, i, j).player.player_id == player
                && teams[i].team_id == v;
            assert(plays_at(teams, time, player));
        }
    }
}

/// Whether a position entry is the `q`-th of a player's positions, holds at
/// `time`, and event `e` is that (player, position).
pub open spec fn current_position_event(qs: Seq<ApiPlayerPosition>, q: int, player_id: u128, time: Timestamp, e: (u128, String)) -> bool {
    &&& 0 <= q < qs.len()
    &&& qs[q].timespan.spec_contains(time)
    &&& e == (player_id, qs[q].position)
}

/// Which position entry the `k`-th event of a position list comes from.
spec fn position_source(qs: Seq<ApiPlayerPosition>, player_id: u128, time: Timestamp, k: int) -> int
    decreases qs.len(),
{
    if qs.len() == 0 {
        0
    } else if k < position_list_events(qs.drop_last(), player_id, time).len() {
        position_source(qs.drop_last(), player_id, time, k)
    } else {
        qs.len() - 1
    }
}

proof fn lemma_position_list_events_exact(qs: Seq<ApiPlayerPosition>, player_id: u128, time: Timestamp)
    ensures
        forall|k: int| 0 <= k < position_list_events(qs, player_id, time).len()
            ==> current_position_event(qs, position_source(qs, player_id, time, k), player_id, time, #[trigger] position_list_events(qs, player_id, time)[k]),
        forall|q: int| 0 <= q < qs.len() && (#[trigger] qs[q]).timespan.spec_contains(time)
            ==> position_list_events(qs, player_id, time).contains((player_id, qs[q].position)),
    decreases qs.len(),
{
    if qs.len() > 0 {
        let rest = qs.drop_last();
        lemma_position_list_events_exact(rest, player_id, time);
        let ev = position_list_events(qs, player_id, time);
        let rev = position_list_events(rest, player_id, time);
        assert forall|k: int| 0 <= k < ev.len()
            implies current_position_event(qs, position_source(qs, player_id, time, k), player_id, time, #[trigger] ev[k]) by {
            if k < rev.len() {
                assert(ev[k] == rev[k]);
                let q = position_source(rest, player_id, time, k);
                assert(current_position_event(rest, q, player_id, time, rev[k]));
                assert(qs[q] == rest[q]);
            } else {
                assert(qs[qs.len() - 1] == qs.last());
            }
        }
        assert forall|q: int| 0 <= q < qs.len() && (#[trigger] qs[q]).timespan.spec_contains(time)
            implies ev.contains((player_id, qs[q].position)) by {
            if q < qs.len() - 1 {
                assert(qs[q] == rest[q]);
                let k = choose|k: int| 0 <= k < rev.len() && rev[k] == (player_id, rest[q].position);
                assert(ev[k] == rev[k]);
            } else {
                assert(ev[ev.len() - 1] == (player_id, qs[q].position));
            }
        }
    }
}

/// Whether `(j, q)` names the `q`-th position of the `j`-th membership's
/// player, that position holds at `time`, and event `e` is that (player,
/// position).
pub open spec fn member_position_at(ms: Seq<ApiTeamPlayerOut>, j: int, q: int, time: Timestamp, e: (u128, String)) -> bool {
    &&& 0 <= j < ms.len()
    &&& ms[j].player.positions is Some
    &&& current_position_event(ms[j].player.positions.unwrap()@, q, ms[j].player.player_id, time, e)
}

/// Which membership the `k`-th position event of a membership list comes from.
spec fn member_source(ms: Seq<ApiTeamPlayerOut>, time: Timestamp, k: int) -> int
    decreases ms.len(),
{
    if ms.len() == 0 {
        0
    } else if k < memberships_position_events(ms.drop_last(), time).len() {
        member_source(ms.drop_last(), time, k)
    } else {
        ms.len() - 1
    }
}

/// Which position entry the `k`-th position event of a membership list comes from.
spec fn member_position_source(ms: Seq<ApiTeamPlayerOut>, time: Timestamp, k: int) -> int
    decreases ms.len(),
{
    if ms.len() == 0 {
        0
    } else if k < memberships_position_events(ms.drop_last(), time).len() {
        member_position_source(ms.drop_last(), time, k)
    } else {
        let m = ms.last();
        position_source(m.player.positions.unwrap()@, m.player.player_id, time, k - memberships_position_events(ms.drop_last(), time).len())
    }
}

proof fn lemma_memberships_position_events_exact(ms: Seq<ApiTeamPlayerOut>, time: Timestamp)
    ensures
        forall|k: int| 0 <= k < memberships_position_events(ms, time).len()
            ==> member_position_at(ms, member_source(ms, time, k), member_position_source(ms, time, k), time,
                #[trigger] memberships_position_events(ms, time)[k]),
        forall|j: int, q: int| #![trigger ms[j].player.positions.unwrap()@[q]] 0 <= j < ms.len() && ms[j].player.positions is Some
            && 0 <= q < ms[j].player.positions.unwrap()@.len()
            && ms[j].player.positions.unwrap()@[q].timespan.spec_contains(time)
            ==> memberships_position_events(ms, time).contains((ms[j].player.player_id, ms[j].player.positions.unwrap()@[q].position)),
    decreases ms.len(),
{
    if ms.len() > 0 {
        let rest = ms.drop_last();
        let last = ms.last();
        lemma_memberships_position_events_exact(rest, time);
        if let Some(qs) = last.player.positions {
            lemma_position_list_events_exact(qs@, last.player.player_id, time);
        }
        let ev = memberships_position_events(ms, time);
        let rev = memberships_position_events(rest, time);
        let lev = member_position_events(last, time);
        assert(ev == rev + lev);
        assert forall|k: int| 0 <= k < ev.len()
            implies member_position_at(ms, member_source(ms, time, k), member_position_source(ms, time, k), time, #[trigger] ev[k]) by {
            if k < rev.len() {
                assert(ev[k] == rev[k]);
                let j = member_source(rest, time, k);
                assert(member_position_at(rest, j, member_position_source(rest, time, k), time, rev[k]));
                assert(ms[j] == rest[j]);
            } else {
                assert(ms[ms.len() - 1] == last);
                assert(ev[k] == lev[k - rev.len()]);
                let qs = last.player.positions.unwrap();
                assert(current_position_event(qs@, position_source(qs@, last.player.player_id, time, k - rev.len()), last.player.player_id, time, lev[k - rev.len()]));
            }
        }
        assert forall|j: int, q: int| #![trigger ms[j].player.positions.unwrap()@[q]] 0 <= j < ms.len() && ms[j].player.positions is Some
            && 0 <= q < ms[j].player.positions.unwrap()@.len()
            && ms[j].player.positions.unwrap()@[q].timespan.spec_contains(time)
            implies ev.contains((ms[j].player.player_id, ms[j].player.positions.unwrap()@[q].position)) by {
            if j < ms.len() - 1 {
                assert(ms[j] == rest[j]);
                let e = (rest[j].player.player_id, rest[j].player.positions.unwrap()@[q].position);
                assert(rev.contains(e));
                let k = choose|k: int| 0 <= k < rev.len() && rev[k] == e;
                assert(ev[k] == rev[k]);
            } else {
                assert(ms[j] == last);
                let qs = last.player.positions.unwrap();
                assert((qs@[q]).timespan.spec_contains(time));
                let e = (last.player.player_id, qs@[q].position);
                assert(lev.contains(e));
                let k = choose|k: int| 0 <= k < lev.len() && lev[k] == e;
                assert(ev[rev.len() + k] == lev[k]);
            }
        }
    }
}

/// Whether `(i, j, q)` names the `q`-th position of the player of the `j`-th
/// membership of the `i`-th team.
pub open spec fn is_position_entry(teams: Seq<ApiTeamWithPlayersHierarchy>, i: int, j: int, q: int) -> bool {
    &&& is_membership(teams, i, j)
    &&& membership(teams, i, j).player.positions is Some
    &&& 0 <= q < membership(teams, i, j).player.positions.unwrap()@.len()
}

/// The `q`-th position of the player of the `j`-th membership of the `i`-th team.
pub open spec fn position_entry(teams: Seq<ApiTeamWithPlayersHierarchy>, i: int, j: int, q: int) -> ApiPlayerPosition {
    membership(teams, i, j).player.positions.unwrap()@[q]
}

/// Whether some position entry of the message says `player` plays `position` at `time`.
pub open spec fn plays_position_at(teams: Seq<ApiTeamWithPlayersHierarchy>, time: Timestamp, player: u128, position: String) -> bool {
    exists|i: int, j: int, q: int| #[trigger] is_position_entry(teams, i, j, q)
        && position_entry(teams, i, j, q).timespan.spec_contains(time)
        && membership(teams, i, j).player.player_id == player
        && position_entry(teams, i, j, q).position == position
}

/// Whether some position entry of the message gives `player` a position at `time`.
pub open spec fn has_position_at(teams: Seq<ApiTeamWithPlayersHierarchy>, time: Timestamp, player: u128) -> bool {
    exists|i: int, j: int, q: int| #[trigger] is_position_entry(teams, i, j, q)
        && position_entry(teams, i, j, q).timespan.spec_contains(time)
        && membership(teams, i, j).player.player_id == player
}

/// The position events of a message are exactly the position entries that
/// hold at `time`: every (player, position) event comes from an entry of
/// that player whose timespan contains `time`, and every such entry gives
/// an event.
pub proof fn lemma_position_events_are_current_positions(teams: Seq<ApiTeamWithPlayersHierarchy>, time: Timestamp)
    ensures
        forall|k: int| 0 <= k < position_events(teams, time).len()
            ==> plays_position_at(teams, time, #[trigger] position_events(teams, time)[k].0, position_events(teams, time)[k].1),
        forall|i: int, j: int, q: int| #[trigger] is_position_entry(teams, i, j, q) && position_entry(teams, i, j, q).timespan.spec_contains(time)
            ==> position_events(teams, time).contains((membership(teams, i, j).player.player_id, position_entry(teams, i, j, q).position)),
    decreases teams.len(),
{
    if teams.len() > 0 {
        let rest = teams.drop_last();
        let last = teams.last();
        let n = teams.len() - 1;
        lemma_position_events_are_current_positions(rest, time);
        let ev = position_events(teams, time);
        let rev = position_events(rest, time);
        let tev = team_position_events(last, time);
        assert(ev == rev + tev);
        if let Some(ps) = last.players {
            lemma_memberships_position_events_exact(ps@, time);
        }
        assert forall|k: int| 0 <= k < ev.len()
            implies plays_position_at(teams, time, #[trigger] ev[k].0, ev[k].1) by {
            if k < rev.len() {
                assert(ev[k] == rev[k]);
                assert(plays_position_at(rest, time, rev[k].0, rev[k].1));
                let (i, j, q) = choose|i: int, j: int, q: int| #[trigger] is_position_entry(rest, i, j, q)
                    && position_entry(rest, i, j, q).timespan.spec_contains(time)
                    && membership(rest, i, j).player.player_id == rev[k].0
                    && position_entry(rest, i, j, q).position == rev[k].1;
                assert(teams[i] == rest[i]);
                assert(is_position_entry(teams, i, j, q));
            } else {
                let ps = last.players.unwrap();
                assert(ev[k] == tev[k - rev.len()]);
                let j = member_source(ps@, time, k - rev.len());
                let q = member_position_source(ps@, time, k - rev.len());
                assert(member_position_at(ps@, j, q, time, tev[k - rev.len()]));
                assert(teams[n] == last);
                assert(is_position_entry(teams, n, j, q));
            }
        }
        assert forall|i: int, j: int, q: int| #[trigger] is_position_entry(teams, i, j, q) && position_entry(teams, i, j, q).timespan.spec_contains(time)
            implies ev.contains((membership(teams, i, j).player.player_id, position_entry(teams, i, j, q).position)) by {
            if i < n {
                assert(teams[i] == rest[i]);
                assert(is_position_entry(rest, i, j, q));
                let e = (membership(rest, i, j).player.player_id, position_entry(rest, i, j, q).position);
                assert(rev.contains(e));
                let k = choose|k: int| 0 <= k < rev.len() && rev[k] == e;
                assert(ev[k] == rev[k]);
            } else {
                assert(teams[i] == last);
                let ps = last.players.unwrap();
                assert(ps@[j].player.positions is Some);
                let e = (ps@[j].player.player_id, ps@[j].player.positions.unwrap()@[q].position);
                assert(tev.contains(e));
                let k = choose|k: int| 0 <= k < tev.len() && tev[k] == e;
                assert(ev[rev.len() + k] == tev[k]);
            }
        }
    }
}

/// After a team message, a player's cached position is one it plays at
/// `time` when some position entry of the message holds at `time`; a player
/// no such entry mentions keeps its cache entry (or its absence) as it was.
pub proof fn lemma_position_cache_follows_current_positions(
    old_cache: Map<u128, String>,
    teams: Seq<ApiTeamWithPlayersHierarchy>,
    time: Timestamp,
    player: u128,
)
    ensures
        has_position_at(teams, time, player) ==> {
            &&& apply_inserts(old_cache, position_events(teams, time)).contains_key(player)
            &&& plays_position_at(teams, time, player, apply_inserts(old_cache, position_events(teams, time))[player])
        },
        !has_position_at(teams, time, player) ==> {
            &&& apply_inserts(old_cache, position_events(teams, time)).contains_key(player) == old_cache.contains_key(player)
            &&& old_cache.contains_key(player) ==> apply_inserts(old_cache, position_events(teams, time))[player] == old_cache[player]
        },
{
    let ev = position_events(teams, time);
    lemma_position_events_are_current_positions(teams, time);
    lemma_cache_keeps_last_event(old_cache, ev, player);
    lemma_last_event_is_an_event(ev, player);
    if has_position_at(teams, time, player) {
        let (i, j, q) = choose|i: int, j: int, q: int| #[trigger] is_position_entry(teams, i, j, q)
            && position_entry(teams, i, j, q).timespan.spec_contains(time)
            && membership(teams, i, j).player.player_id == player;
        let e = (player, position_entry(teams, i, j, q).position);
        assert(ev.contains(e));
        let k = choose|k: int| 0 <= k < ev.len() && ev[k] == e;
        assert(ev[k].0 == player);
        let v = last_event(ev, player).unwrap();
        let k2 = choose|k2: int| 0 <= k2 < ev.len() && ev[k2] == (player, v);
        assert(plays_position_at(teams, time, ev[k2].0, ev[k2].1));
    } else {
        if last_event(ev, player) is Some {
            let v = last_event(ev, player).unwrap();
            let k2 = choose|k2: int| 0 <= k2 < ev.len() && ev[k2] == (player, v);
            assert(plays_position_at(teams, time, ev[k2].0, ev[k2].1));
            let (i, j, q) = choose|i: int, j: int, q: int| #[trigger] is_position_entry(teams, i, j, q)
                && position_entry(teams, i, j, q).timespan.spec_contains(time)
                && membership(teams, i, j).player.player_id == player
                && position_entry(teams, i, j, q).position == v;
            assert(has_position_at(teams, time, player));
        }
    }
}

} // verus!
