//! Teams assembled with their names and players, as the results server
//! sends them after loading the rows.
use vstd::prelude::*;
use std::collections::{HashMap, HashSet};
use crate::result::types::players::{ApiPlayer, ApiPlayerName, ApiPlayerPosition};
use crate::result::types::teams::{
    Team, TeamName, TeamPlayer, ApiTeamName, ApiTeamPlayerOut, ApiTeamWithPlayersHierarchy, api_team_name,
};

verus! {

broadcast use vstd::std_specs::hash::group_hash_axioms;

/// An optional list, read as an optional sequence.
pub open spec fn opt_seq<T>(o: Option<Vec<T>>) -> Option<Seq<T>> {
    match o {
        Some(v) => Some(v@),
        None => None,
    }
}

/// Two players that hold the same values.
pub open spec fn same_player(a: ApiPlayer, b: ApiPlayer) -> bool {
    &&& a.player_id == b.player_id
    &&& a.meta == b.meta
    &&& opt_seq(a.names) == opt_seq(b.names)
    &&& opt_seq(a.positions) == opt_seq(b.positions)
}

/// The last player in the list with the given identifier (a later entry
/// replaces an earlier one), if any.
pub open spec fn last_player(players: Seq<ApiPlayer>, id: u128) -> Option<ApiPlayer>
    decreases players.len(),
{
    if players.len() == 0 {
        None
    } else if players.last().player_id == id {
        Some(players.last())
    } else {
        last_player(players.drop_last(), id)
    }
}

/// The memberships of a team, in the order given.
pub open spec fn members(team_players: Seq<TeamPlayer>, team_id: u128) -> Seq<TeamPlayer>
    decreases team_players.len(),
{
    if team_players.len() == 0 {
        Seq::empty()
    } else if team_players.last().team_id == team_id {
        members(team_players.drop_last(), team_id).push(team_players.last())
    } else {
        members(team_players.drop_last(), team_id)
    }
}

/// Whether one of the teams has the given identifier.
pub open spec fn team_listed(teams: Seq<(Team, Vec<TeamName>)>, team_id: u128) -> bool {
    exists|j: int| 0 <= j < teams.len() && #[trigger] teams[j].0.team_id == team_id
}

/// Whether a team with the same identifier comes before position `i`.
pub open spec fn listed_before(teams: Seq<(Team, Vec<TeamName>)>, i: int) -> bool {
    exists|j: int| 0 <= j < i && #[trigger] teams[j].0.team_id == teams[i].0.team_id
}

/// Whether a membership names the player it gives.
pub open spec fn player_entry(entry: ApiTeamPlayerOut, tp: TeamPlayer, players: Seq<ApiPlayer>) -> bool {
    &&& entry.team_id == tp.team_id
    &&& entry.timespan == tp.timespan
    &&& last_player(players, tp.player_id) matches Some(p) && same_player(entry.player, p)
}

/// Whether `out` is the assembled view of the team at position `i`: its
/// names, its metadata, and, the first time the team comes up, each of its
/// memberships with the player (later repeats get none).
pub open spec fn assembled_team(
    out: ApiTeamWithPlayersHierarchy,
    teams: Seq<(Team, Vec<TeamName>)>,
    i: int,
    team_players: Seq<TeamPlayer>,
    players: Seq<ApiPlayer>,
) -> bool {
    let t = teams[i].0;
    let ms = if listed_before(teams, i) { Seq::empty() } else { members(team_players, t.team_id) };
    &&& out.team_id == t.team_id
    &&& out.meta == t.meta
    &&& out.names matches Some(ns) && ns@ == teams[i].1@.map_values(|n: TeamName| api_team_name(n))
    &&& out.players matches Some(ps) && ps@.len() == ms.len()
    &&& forall|m: int| 0 <= m < ms.len() ==> player_entry(#[trigger] out.players.unwrap()@[m], ms[m], players)
}

/// A copy of a player that holds the same values.
fn copy_player(p: &ApiPlayer) -> (q: ApiPlayer)
    ensures
        same_player(q, *p),
{
    let names = match &p.names {
        Some(ns) => {
            let mut out: Vec<ApiPlayerName> = Vec::new();
            let mut j: usize = 0;
            while j < ns.len()
                invariant
                    j <= ns@.len(),
                    out@ == ns@.take(j as int),
                decreases ns@.len() - j,
            {
                out.push(ApiPlayerName { name: ns[j].name.clone(), timespan: ns[j].timespan });
                assert(ns@.take(j + 1) =~= ns@.take(j as int).push(ns@[j as int]));
                j = j + 1;
            }
            assert(ns@.take(ns@.len() as int) =~= ns@);
            Some(out)
        },
        None => None,
    };
    let positions = match &p.positions {
        Some(ps) => {
            let mut out: Vec<ApiPlayerPosition> = Vec::new();
            let mut j: usize = 0;
            while j < ps.len()
                invariant
                    j <= ps@.len(),
                    out@ == ps@.take(j as int),
                decreases ps@.len() - j,
            {
                out.push(ApiPlayerPosition { position: ps[j].position.clone(), timespan: ps[j].timespan });
                assert(ps@.take(j + 1) =~= ps@.take(j as int).push(ps@[j as int]));
                j = j + 1;
            }
            assert(ps@.take(ps@.len() as int) =~= ps@);
            Some(out)
        },
        None => None,
    };
    ApiPlayer { player_id: p.player_id, meta: p.meta.clone(), names, positions }
}

/// Where the last player with each identifier sits in the list.
fn index_players(players: &Vec<ApiPlayer>) -> (index: HashMap<u128, usize>)
    ensures
        forall|x: u128| #[trigger] index@.contains_key(x) <==> last_player(players@, x) is Some,
        forall|x: u128| #[trigger] index@.contains_key(x) ==> index@[x] < players@.len()
            && last_player(players@, x) == Some(players@[index@[x] as int]),
{
    let mut index: HashMap<u128, usize> = HashMap::new();
    let mut k: usize = 0;
    while k < players.len()
        invariant
            k <= players@.len(),
            forall|x: u128| #[trigger] index@.contains_key(x) <==> last_player(players@.take(k as int), x) is Some,
            forall|x: u128| #[trigger] index@.contains_key(x) ==> index@[x] < k
                && last_player(players@.take(k as int), x) == Some(players@[index@[x] as int]),
        decreases players@.len() - k,
    {
        assert(players@.take(k + 1).drop_last() =~= players@.take(k as int));
        index.insert(players[k].player_id, k);
        k = k + 1;
    }
    assert(players@.take(players@.len() as int) =~= players@);
    index
}

/// Every membership of a team comes from the list and belongs to the team.
proof fn lemma_members_from(team_players: Seq<TeamPlayer>, team_id: u128)
    ensures
        forall|m: int| 0 <= m < members(team_players, team_id).len() ==> {
            &&& (#[trigger] members(team_players, team_id)[m]).team_id == team_id
            &&& exists|a: int| 0 <= a < team_players.len() && team_players[a] == members(team_players, team_id)[m]
        },
    decreases team_players.len(),
{
    if team_players.len() > 0 {
        let rest = team_players.drop_last();
        lemma_members_from(rest, team_id);
        assert forall|m: int| 0 <= m < members(team_players, team_id).len() implies {
            &&& (#[trigger] members(team_players, team_id)[m]).team_id == team_id
            &&& exists|a: int| 0 <= a < team_players.len() && team_players[a] == members(team_players, team_id)[m]
        } by {
            if m < members(rest, team_id).len() {
                let a = choose|a: int| 0 <= a < rest.len() && rest[a] == members(rest, team_id)[m];
                assert(team_players[a] == rest[a]);
            } else {
                assert(team_players[team_players.len() - 1] == team_players.last());
            }
        }
    }
}

/// The memberships grouped by team: for each team with memberships, where
/// its group sits, and the groups in the order their teams first come up.
fn group_members(team_players: &Vec<TeamPlayer>) -> (r: (HashMap<u128, usize>, Vec<Vec<TeamPlayer>>))
    ensures
        forall|x: u128| #[trigger] r.0@.contains_key(x) ==> r.0@[x] < r.1@.len() && r.1@[r.0@[x] as int]@ == members(team_players@, x),
        forall|x: u128| !r.0@.contains_key(x) ==> #[trigger] members(team_players@, x) == Seq::<TeamPlayer>::empty(),
{
    let ghost src = team_players@;
    let mut index: HashMap<u128, usize> = HashMap::new();
    let mut groups: Vec<Vec<TeamPlayer>> = Vec::new();
    let mut a: usize = 0;
    while a < team_players.len()
        invariant
            src == team_players@,
            a <= src.len(),
            forall|x: u128| #[trigger] index@.contains_key(x) ==> index@[x] < groups@.len()
                && groups@[index@[x] as int]@ == members(src.take(a as int), x),
            forall|x: u128| !index@.contains_key(x) ==> #[trigger] members(src.take(a as int), x) == Seq::<TeamPlayer>::empty(),
            forall|x: u128, y: u128| #[trigger] index@.contains_key(x) && #[trigger] index@.contains_key(y) && x != y ==> index@[x] != index@[y],
        decreases src.len() - a,
    {
        let tp = team_players[a];
        assert(src.take(a + 1).drop_last() =~= src.take(a as int));
        assert(src.take(a + 1).last() == tp);
        let ghost old_index = index@;
        let ghost old_groups = groups@;
        match index.get(&tp.team_id) {
            Some(k) => {
                let k = *k;
                push_group(&mut groups, k, tp);
                assert forall|x: u128| #[trigger] index@.contains_key(x) implies index@[x] < groups@.len()
                    && groups@[index@[x] as int]@ == members(src.take(a + 1), x) by {
                    if x != tp.team_id {
                        assert(old_index[x] != old_index[tp.team_id]);
                    }
                }
            },
            None => {
                let n = groups.len();
                groups.push(vec![tp]);
                index.insert(tp.team_id, n);
                assert(members(src.take(a as int), tp.team_id) == Seq::<TeamPlayer>::empty());
                assert(groups@[n as int]@ =~= members(src.take(a + 1), tp.team_id));
            },
        }
        assert forall|x: u128| !index@.contains_key(x) implies #[trigger] members(src.take(a + 1), x) == Seq::<TeamPlayer>::empty() by {
            assert(!old_index.contains_key(x));
            assert(members(src.take(a as int), x) == Seq::<TeamPlayer>::empty());
        }
        a = a + 1;
    }
    assert(src.take(src.len() as int) =~= src);
    (index, groups)
}

/// Adds `x` to the end of the group at position `k`.
fn push_group(groups: &mut Vec<Vec<TeamPlayer>>, k: usize, x: TeamPlayer)
    requires
        k < old(groups)@.len(),
    ensures
        final(groups)@.len() == old(groups)@.len(),
        final(groups)@[k as int]@ == old(groups)@[k as int]@.push(x),
        forall|j: int| 0 <= j < old(groups)@.len() && j != k ==> final(groups)@[j] == old(groups)@[j],
{
    groups[k].push(x);
}

/// The client view of a team's stored names, in order.
fn api_team_names(names: Vec<TeamName>) -> (out: Vec<ApiTeamName>)
    ensures
        out@ == names@.map_values(|n: TeamName| api_team_name(n)),
{
    let ghost src = names@;
    let mut out: Vec<ApiTeamName> = Vec::new();
    for n in it: names.into_iter()
        invariant
            it.seq() == src,
            out@ == src.take(it.index() as int).map_values(|n: TeamName| api_team_name(n)),
    {
        out.push(ApiTeamName { name: n.name, timespan: n.timespan });
        assert(src.take(it.index() + 1) =~= src.take(it.index() as int).push(n));
    }
    assert(src.take(src.len() as int) =~= src);
    out
}

/// Assembles the loaded teams, each with its names and, the first time it
/// comes up, its memberships in the order given, each with its player (see
/// `assembled_team`). Every membership of a listed team must name a known
/// player, and no player may be claimed by two such memberships: a player
/// is handed out once.
pub fn teams_with_players(
    teams: Vec<(Team, Vec<TeamName>)>,
    team_players: Vec<TeamPlayer>,
    players: Vec<ApiPlayer>,
) -> (out: Vec<ApiTeamWithPlayersHierarchy>)
    requires
        forall|a: int| 0 <= a < team_players@.len() && team_listed(teams@, #[trigger] team_players@[a].team_id)
            ==> last_player(players@, team_players@[a].player_id) is Some,
        forall|a: int, b: int| 0 <= a < b < team_players@.len()
            && team_listed(teams@, #[trigger] team_players@[a].team_id)
            && team_listed(teams@, #[trigger] team_players@[b].team_id)
            ==> team_players@[a].player_id != team_players@[b].player_id,
    ensures
        out@.len() == teams@.len(),
        forall|i: int| 0 <= i < teams@.len() ==> assembled_team(#[trigger] out@[i], teams@, i, team_players@, players@),
{
    let ghost src = teams@;
    let ghost tps = team_players@;
    let ghost ps = players@;
    let pindex = index_players(&players);
    let (gindex, groups) = group_members(&team_players);
    let mut done: HashSet<u128> = HashSet::new();
    let mut out: Vec<ApiTeamWithPlayersHierarchy> = Vec::new();
    for row in it: teams.into_iter()
        invariant
            it.seq() == src,
            0 <= it.index() <= src.len(),
            tps == team_players@,
            ps == players@,
            forall|a: int| 0 <= a < tps.len() && team_listed(src, #[trigger] tps[a].team_id)
                ==> last_player(ps, tps[a].player_id) is Some,
            forall|x: u128| #[trigger] pindex@.contains_key(x) <==> last_player(ps, x) is Some,
            forall|x: u128| #[trigger] pindex@.contains_key(x) ==> pindex@[x] < ps.len()
                && last_player(ps, x) == Some(ps[pindex@[x] as int]),
            forall|x: u128| #[trigger] gindex@.contains_key(x) ==> gindex@[x] < groups@.len() && groups@[gindex@[x] as int]@ == members(tps, x),
            forall|x: u128| !gindex@.contains_key(x) ==> #[trigger] members(tps, x) == Seq::<TeamPlayer>::empty(),
            forall|x: u128| #[trigger] done@.contains(x) <==> exists|j: int| 0 <= j < it.index() && #[trigger] src[j].0.team_id == x,
            out@.len() == it.index(),
            forall|i: int| 0 <= i < it.index() ==> assembled_team(#[trigger] out@[i], src, i, tps, ps),
    {
        let ghost i = it.index();
        let (t, names) = row;
        let id = t.team_id;
        assert(src[i].0.team_id == id);
        let api_names = api_team_names(names);
        let first = !done.contains(&id);
        assert(first <==> !listed_before(src, i));
        let mut entries: Vec<ApiTeamPlayerOut> = Vec::new();
        let ghost ms = if first { members(tps, id) } else { Seq::<TeamPlayer>::empty() };
        if first {
            match gindex.get(&id) {
                Some(k) => {
                    let k = *k;
                    let group = &groups[k];
                    proof {
                        lemma_members_from(tps, id);
                    }
                    let mut m: usize = 0;
                    while m < group.len()
                        invariant
                            group@ == members(tps, id),
                            ms == members(tps, id),
                            src[i].0.team_id == id,
                            0 <= i < src.len(),
                            m <= group@.len(),
                            entries@.len() == m,
                            forall|a: int| 0 <= a < tps.len() && team_listed(src, #[trigger] tps[a].team_id)
                                ==> last_player(ps, tps[a].player_id) is Some,
                            forall|x: u128| #[trigger] pindex@.contains_key(x) <==> last_player(ps, x) is Some,
                            forall|x: u128| #[trigger] pindex@.contains_key(x) ==> pindex@[x] < ps.len()
                                && last_player(ps, x) == Some(ps[pindex@[x] as int]),
                            forall|q: int| 0 <= q < members(tps, id).len() ==> {
                                &&& (#[trigger] members(tps, id)[q]).team_id == id
                                &&& exists|a: int| 0 <= a < tps.len() && tps[a] == members(tps, id)[q]
                            },
                            ps == players@,
                            forall|q: int| 0 <= q < m ==> player_entry(#[trigger] entries@[q], ms[q], ps),
                        decreases group@.len() - m,
                    {
                        let tp = group[m];
                        assert(members(tps, id)[m as int] == tp);
                        let ghost a = choose|a: int| 0 <= a < tps.len() && tps[a] == members(tps, id)[m as int];
                        assert(team_listed(src, tps[a].team_id));
                        assert(last_player(ps, tp.player_id) is Some);
                        let pi = *pindex.get(&tp.player_id).unwrap();
                        let player = copy_player(&players[pi]);
                        entries.push(ApiTeamPlayerOut { team_id: tp.team_id, player, timespan: tp.timespan });
                        m = m + 1;
                    }
                },
                None => {
                    assert(members(tps, id) == Seq::<TeamPlayer>::empty());
                },
            }
            done.insert(id);
        }
        let ghost done_before = done@;
        out.push(ApiTeamWithPlayersHierarchy {
            team_id: t.team_id,
            names: Some(api_names),
            meta: t.meta,
            players: Some(entries),
        });
        assert(assembled_team(out@[i], src, i, tps, ps));
        assert forall|x: u128| #[trigger] done@.contains(x) <==> exists|j: int| 0 <= j < i + 1 && #[trigger] src[j].0.team_id == x by {
            if x == id {
                assert(src[i].0.team_id == x);
            }
        }
    }
    out
}

/// The loaded teams, each with its names and no players.
pub fn teams_with_names(teams: Vec<(Team, Vec<TeamName>)>) -> (out: Vec<ApiTeamWithPlayersHierarchy>)
    ensures
        out@.len() == teams@.len(),
        forall|i: int| 0 <= i < teams@.len() ==> {
            &&& (#[trigger] out@[i]).team_id == teams@[i].0.team_id
            &&& out@[i].meta == teams@[i].0.meta
            &&& out@[i].names matches Some(ns) && ns@ == teams@[i].1@.map_values(|n: TeamName| api_team_name(n))
            &&& out@[i].players is None
        },
{
    let ghost src = teams@;
    let mut out: Vec<ApiTeamWithPlayersHierarchy> = Vec::new();
    for row in it: teams.into_iter()
        invariant
            it.seq() == src,
            out@.len() == it.index(),
            forall|i: int| 0 <= i < it.index() ==> {
                &&& (#[trigger] out@[i]).team_id == src[i].0.team_id
                &&& out@[i].meta == src[i].0.meta
                &&& out@[i].names matches Some(ns) && ns@ == src[i].1@.map_values(|n: TeamName| api_team_name(n))
                &&& out@[i].players is None
            },
    {
        let (t, names) = row;
        let api_names = api_team_names(names);
        out.push(ApiTeamWithPlayersHierarchy { team_id: t.team_id, names: Some(api_names), meta: t.meta, players: None });
    }
    out
}

} // verus!
