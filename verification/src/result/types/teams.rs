//! Teams, their names over time, and their players over time.
use vstd::prelude::*;
use std::collections::HashMap;
use crate::timespan::DieselTimespan;
use crate::ids::new_v4;
use crate::result::types::players::ApiPlayer;

verus! {

broadcast use vstd::std_specs::hash::group_hash_axioms;

/// A team. `meta` is free-form JSON text.
#[derive(Debug, Clone)]
pub struct Team {
    pub team_id: u128,
    pub meta: String,
}

/// A team with its names over time, as the clients see it.
#[derive(Debug, Clone)]
pub struct ApiTeam {
    pub team_id: u128,
    pub meta: String,
    pub names: Vec<ApiTeamName>,
}

/// A stored name of a team during `timespan`.
#[derive(Debug, Clone)]
pub struct TeamName {
    pub team_name_id: u128,
    pub team_id: u128,
    pub name: String,
    pub timespan: DieselTimespan,
}

/// A partial change to a team; `None` leaves the field as it is.
#[derive(Debug, Clone)]
pub struct TeamUpdate {
    pub team_id: u128,
    pub meta: Option<String>,
}

/// A team's name during `timespan`, as the clients see it.
#[derive(Debug, Clone)]
pub struct ApiTeamName {
    pub name: String,
    pub timespan: DieselTimespan,
}

/// A new name for a team.
#[derive(Debug, Clone)]
pub struct ApiTeamNameNew {
    pub team_id: u128,
    pub name: String,
    pub timespan: DieselTimespan,
}

/// Teams, players and who played for whom.
#[derive(Debug, Clone)]
pub struct ApiTeamsAndPlayers {
    pub teams: Vec<ApiTeam>,
    pub players: Vec<ApiPlayer>,
    pub team_players: Vec<TeamPlayer>,
}

/// A stored membership of a player in a team during `timespan`.
#[derive(Debug, Clone, Copy, PartialEq, Eq, Structural)]
pub struct TeamPlayer {
    pub team_player_id: u128,
    pub team_id: u128,
    pub player_id: u128,
    pub timespan: DieselTimespan,
}

/// A new membership of a player in a team.
#[derive(Debug, Clone, Copy, PartialEq, Eq, Structural)]
pub struct ApiTeamPlayer {
    pub team_id: u128,
    pub player_id: u128,
    pub timespan: DieselTimespan,
}

/// A team with, optionally, its names and its players over time.
#[derive(Debug, Clone)]
pub struct ApiTeamWithPlayersHierarchy {
    pub team_id: u128,
    pub names: Option<Vec<ApiTeamName>>,
    pub meta: String,
    pub players: Option<Vec<ApiTeamPlayerOut>>,
}

/// A player's membership of a team during `timespan`, with the player.
#[derive(Debug, Clone)]
pub struct ApiTeamPlayerOut {
    pub team_id: u128,
    pub player: ApiPlayer,
    pub timespan: DieselTimespan,
}

/// The client view of a stored name.
pub open spec fn api_team_name(n: TeamName) -> ApiTeamName {
    ApiTeamName { name: n.name, timespan: n.timespan }
}

/// A row joining a team with one of its names.
pub type TeamRow = (Team, TeamName);

/// The teams of the rows, each once, in the order they first appear.
pub open spec fn row_team_ids(rows: Seq<TeamRow>) -> Seq<u128>
    decreases rows.len(),
{
    if rows.len() == 0 {
        Seq::empty()
    } else {
        let before = row_team_ids(rows.drop_last());
        if before.contains(rows.last().0.team_id) {
            before
        } else {
            before.push(rows.last().0.team_id)
        }
    }
}

/// The metadata of the first row of a team.
pub open spec fn row_team_meta(rows: Seq<TeamRow>, id: u128) -> String
    decreases rows.len(),
{
    if rows.len() == 0 {
        arbitrary()
    } else if row_team_ids(rows.drop_last()).contains(id) {
        row_team_meta(rows.drop_last(), id)
    } else {
        rows.last().0.meta
    }
}

/// The names of a team's rows, in row order.
pub open spec fn row_team_names(rows: Seq<TeamRow>, id: u128) -> Seq<ApiTeamName>
    decreases rows.len(),
{
    if rows.len() == 0 {
        Seq::empty()
    } else if rows.last().0.team_id == id {
        row_team_names(rows.drop_last(), id).push(api_team_name(rows.last().1))
    } else {
        row_team_names(rows.drop_last(), id)
    }
}

/// A team's rows gathered into its client view: the first row's metadata
/// and all names in row order.
pub open spec fn gathered_team(t: ApiTeam, rows: Seq<TeamRow>, id: u128) -> bool {
    &&& t.team_id == id
    &&& t.meta == row_team_meta(rows, id)
    &&& t.names@ == row_team_names(rows, id)
}

/// A stored name row for a team's new name, under a fresh identifier.
pub open spec fn new_team_name_row(row: TeamName, team_id: u128, n: ApiTeamName) -> bool {
    row.team_id == team_id && row.name == n.name && row.timespan == n.timespan && crate::ids::is_v4(row.team_name_id)
}

/// The names of the teams, team by team, each with the team it belongs to.
pub open spec fn team_named(teams: Seq<ApiTeam>) -> Seq<(u128, ApiTeamName)>
    decreases teams.len(),
{
    if teams.len() == 0 {
        Seq::empty()
    } else {
        let t = teams.last();
        team_named(teams.drop_last()) + t.names@.map_values(|n: ApiTeamName| (t.team_id, n))
    }
}

/// A team that no row has contributes no name.
proof fn lemma_absent_team(rows: Seq<TeamRow>, id: u128)
    requires
        !row_team_ids(rows).contains(id),
    ensures
        row_team_names(rows, id) == Seq::<ApiTeamName>::empty(),
    decreases rows.len(),
{
    if rows.len() > 0 {
        let before = row_team_ids(rows.drop_last());
        if before.contains(id) {
            let k = choose|k: int| 0 <= k < before.len() && before[k] == id;
            if !before.contains(rows.last().0.team_id) {
                assert(before.push(rows.last().0.team_id)[k] == id);
            }
        }
        if rows.last().0.team_id == id {
            if !before.contains(id) {
                assert(before.push(id)[before.len() as int] == id);
            }
        }
        lemma_absent_team(rows.drop_last(), id);
    }
}

/// Gathering rows loses no team and repeats none: each team of the rows
/// has exactly one entry, and every entry is the team of some row.
pub proof fn lemma_each_row_team_once(rows: Seq<TeamRow>)
    ensures
        row_team_ids(rows).no_duplicates(),
        forall|a: int| 0 <= a < rows.len() ==> row_team_ids(rows).contains(#[trigger] rows[a].0.team_id),
        forall|k: int| #![trigger row_team_ids(rows)[k]] 0 <= k < row_team_ids(rows).len() ==> exists|a: int| 0 <= a < rows.len() && #[trigger] rows[a].0.team_id == row_team_ids(rows)[k],
    decreases rows.len(),
{
    if rows.len() > 0 {
        let rest = rows.drop_last();
        lemma_each_row_team_once(rest);
        let before = row_team_ids(rest);
        let id = rows.last().0.team_id;
        assert forall|a: int| 0 <= a < rows.len() implies row_team_ids(rows).contains(#[trigger] rows[a].0.team_id) by {
            if a < rows.len() - 1 {
                assert(rows[a] == rest[a]);
                assert(before.contains(rest[a].0.team_id));
                if !before.contains(id) {
                    let j = choose|j: int| 0 <= j < before.len() && before[j] == rest[a].0.team_id;
                    assert(before.push(id)[j] == rest[a].0.team_id);
                }
            } else {
                if !before.contains(id) {
                    assert(before.push(id)[before.len() as int] == id);
                }
            }
        }
        assert forall|k: int| #![trigger row_team_ids(rows)[k]] 0 <= k < row_team_ids(rows).len() implies exists|a: int| 0 <= a < rows.len() && #[trigger] rows[a].0.team_id == row_team_ids(rows)[k] by {
            if k < before.len() {
                let a = choose|a: int| 0 <= a < rest.len() && #[trigger] rest[a].0.team_id == before[k];
                assert(rows[a] == rest[a]);
            } else {
                assert(rows[rows.len() - 1] == rows.last());
            }
        }
    }
}

/// The teams of the rows occur once each.
proof fn lemma_row_team_ids_distinct(rows: Seq<TeamRow>)
    ensures
        row_team_ids(rows).no_duplicates(),
    decreases rows.len(),
{
    if rows.len() > 0 {
        lemma_row_team_ids_distinct(rows.drop_last());
    }
}

/// Adds `x` to the end of the list at position `k`.
fn push_at<T>(lists: &mut Vec<Vec<T>>, k: usize, x: T)
    requires
        k < old(lists)@.len(),
    ensures
        final(lists)@.len() == old(lists)@.len(),
        final(lists)@[k as int]@ == old(lists)@[k as int]@.push(x),
        forall|j: int| 0 <= j < old(lists)@.len() && j != k ==> final(lists)@[j] == old(lists)@[j],
{
    lists[k].push(x);
}

impl ApiTeam {
    /// Gathers joined rows into one client view per team, teams in the
    /// order they first appear (see `gathered_team`).
    pub fn from_rows(rows: Vec<TeamRow>) -> (out: Vec<ApiTeam>)
        ensures
            out@.len() == row_team_ids(rows@).len(),
            forall|k: int| 0 <= k < out@.len() ==> gathered_team(#[trigger] out@[k], rows@, row_team_ids(rows@)[k]),
    {
        let ghost src = rows@;
        let mut ids: Vec<u128> = Vec::new();
        let mut index: HashMap<u128, usize> = HashMap::new();
        let mut metas: Vec<String> = Vec::new();
        let mut names: Vec<Vec<ApiTeamName>> = Vec::new();
        for row in it: rows.into_iter()
            invariant
                it.seq() == src,
                0 <= it.index() <= src.len(),
                ids@ == row_team_ids(src.take(it.index() as int)),
                forall|x: u128| #[trigger] index@.contains_key(x) <==> ids@.contains(x),
                forall|x: u128| #[trigger] index@.contains_key(x) ==> index@[x] < ids@.len() && ids@[index@[x] as int] == x,
                metas@.len() == ids@.len(),
                names@.len() == ids@.len(),
                forall|k: int| 0 <= k < ids@.len() ==> #[trigger] metas@[k] == row_team_meta(src.take(it.index() as int), ids@[k]),
                forall|k: int| 0 <= k < ids@.len() ==> #[trigger] names@[k]@ == row_team_names(src.take(it.index() as int), ids@[k]),
        {
            let ghost i = it.index();
            let ghost before = src.take(i);
            let ghost after = src.take(i + 1);
            assert(after.drop_last() =~= before);
            proof {
                lemma_row_team_ids_distinct(before);
            }
            let ghost old_ids = ids@;
            let (team, team_name) = row;
            let id = team.team_id;
            let name = ApiTeamName { name: team_name.name, timespan: team_name.timespan };
            match index.get(&id) {
                Some(k) => {
                    let k = *k;
                    assert(ids@.contains(id));
                    push_at(&mut names, k, name);
                    assert forall|j: int| 0 <= j < ids@.len() && j != k implies ids@[j] != id by {
                        assert(ids@[k as int] == id);
                    }
                },
                None => {
                    assert(!ids@.contains(id));
                    proof {
                        lemma_absent_team(before, id);
                    }
                    let n = ids.len();
                    ids.push(id);
                    index.insert(id, n);
                    metas.push(team.meta);
                    names.push(vec![name]);
                    assert forall|x: u128| #[trigger] index@.contains_key(x) <==> ids@.contains(x) by {
                        if x == id {
                            assert(ids@[n as int] == id);
                        } else {
                            if ids@.contains(x) {
                                let j = choose|j: int| 0 <= j < ids@.len() && ids@[j] == x;
                                assert(old_ids[j] == x);
                            }
                            if old_ids.contains(x) {
                                let j = choose|j: int| 0 <= j < old_ids.len() && old_ids[j] == x;
                                assert(ids@[j] == x);
                            }
                        }
                    }
                    assert forall|j: int| 0 <= j < n implies old_ids[j] != id by {
                        if old_ids[j] == id {
                            assert(old_ids.contains(id));
                        }
                    }
                },
            }
        }
        let ghost full = row_team_ids(src);
        assert(src.take(src.len() as int) =~= src);
        let mut rev: Vec<ApiTeam> = Vec::new();
        while ids.len() > 0
            invariant
                full == row_team_ids(src),
                ids@.len() <= full.len(),
                ids@ == full.take(ids@.len() as int),
                metas@.len() == ids@.len(),
                names@.len() == ids@.len(),
                forall|k: int| 0 <= k < ids@.len() ==> #[trigger] metas@[k] == row_team_meta(src, ids@[k]),
                forall|k: int| 0 <= k < ids@.len() ==> #[trigger] names@[k]@ == row_team_names(src, ids@[k]),
                rev@.len() + ids@.len() == full.len(),
                forall|j: int| 0 <= j < rev@.len() ==> gathered_team(#[trigger] rev@[j], src, full[full.len() - 1 - j]),
            decreases ids@.len(),
        {
            let ghost n = ids@.len();
            let id = ids.pop().unwrap();
            let meta = metas.pop().unwrap();
            let ns = names.pop().unwrap();
            assert(full[n - 1] == id);
            assert(ids@ =~= full.take(ids@.len() as int));
            rev.push(ApiTeam { team_id: id, meta, names: ns });
        }
        let mut out: Vec<ApiTeam> = Vec::new();
        while rev.len() > 0
            invariant
                full == row_team_ids(src),
                rev@.len() + out@.len() == full.len(),
                forall|j: int| 0 <= j < rev@.len() ==> gathered_team(#[trigger] rev@[j], src, full[full.len() - 1 - j]),
                forall|k: int| 0 <= k < out@.len() ==> gathered_team(#[trigger] out@[k], src, full[k]),
            decreases rev@.len(),
        {
            let t = rev.pop().unwrap();
            out.push(t);
        }
        out
    }

    /// What storing new teams writes: a name row with a fresh identifier for
    /// each of their names, team by team (see `team_named`), and the bare
    /// teams, in order.
    pub fn insert_rows(teams: Vec<ApiTeam>) -> (rows: (Vec<TeamName>, Vec<Team>))
        ensures
            rows.0@.len() == team_named(teams@).len(),
            forall|k: int| 0 <= k < rows.0@.len() ==> new_team_name_row(#[trigger] rows.0@[k], team_named(teams@)[k].0, team_named(teams@)[k].1),
            rows.1@.len() == teams@.len(),
            forall|k: int| 0 <= k < teams@.len() ==> (#[trigger] rows.1@[k]).team_id == teams@[k].team_id && rows.1@[k].meta == teams@[k].meta,
    {
        let ghost src = teams@;
        let mut name_rows: Vec<TeamName> = Vec::new();
        let mut i: usize = 0;
        while i < teams.len()
            invariant
                src == teams@,
                i <= src.len(),
                name_rows@.len() == team_named(src.take(i as int)).len(),
                forall|k: int| 0 <= k < name_rows@.len() ==> new_team_name_row(#[trigger] name_rows@[k], team_named(src.take(i as int))[k].0, team_named(src.take(i as int))[k].1),
            decreases src.len() - i,
        {
            let t = &teams[i];
            let ghost before = team_named(src.take(i as int));
            assert(src.take(i + 1).drop_last() =~= src.take(i as int));
            let mut j: usize = 0;
            while j < t.names.len()
                invariant
                    j <= t.names@.len(),
                    name_rows@.len() == before.len() + j,
                    forall|k: int| 0 <= k < before.len() ==> new_team_name_row(#[trigger] name_rows@[k], before[k].0, before[k].1),
                    forall|k: int| 0 <= k < j ==> new_team_name_row(#[trigger] name_rows@[before.len() + k], t.team_id, t.names@[k]),
                decreases t.names@.len() - j,
            {
                let n = &t.names[j];
                name_rows.push(TeamName {
                    team_name_id: new_v4(),
                    team_id: t.team_id,
                    name: n.name.clone(),
                    timespan: n.timespan,
                });
                j = j + 1;
            }
            let ghost added = t.names@.map_values(|n: ApiTeamName| (t.team_id, n));
            assert(team_named(src.take(i + 1)) =~= before + added);
            assert forall|k: int| 0 <= k < name_rows@.len() implies new_team_name_row(#[trigger] name_rows@[k], team_named(src.take(i + 1))[k].0, team_named(src.take(i + 1))[k].1) by {
                if k >= before.len() {
                    assert(name_rows@[k] == name_rows@[before.len() + (k - before.len())]);
                }
            }
            i = i + 1;
        }
        assert(src.take(src.len() as int) =~= src);
        let mut raw: Vec<Team> = Vec::new();
        for t in it: teams.into_iter()
            invariant
                it.seq() == src,
                raw@.len() == it.index(),
                forall|k: int| 0 <= k < it.index() ==> (#[trigger] raw@[k]).team_id == src[k].team_id && raw@[k].meta == src[k].meta,
        {
            raw.push(Team { team_id: t.team_id, meta: t.meta });
        }
        (name_rows, raw)
    }
}

/// How many names the teams carry in all.
pub open spec fn team_name_count(teams: Seq<ApiTeam>) -> nat
    decreases teams.len(),
{
    if teams.len() == 0 {
        0
    } else {
        team_name_count(teams.drop_last()) + teams.last().names@.len()
    }
}

/// The `k`-th name of team `i` is written right after the names of the
/// teams before it and its own earlier names, under the team.
pub open spec fn team_name_row(teams: Seq<ApiTeam>, i: int, k: int) -> bool {
    &&& team_name_count(teams.take(i)) + k < team_named(teams).len()
    &&& team_named(teams)[team_name_count(teams.take(i)) + k] == (teams[i].team_id, teams[i].names@[k])
}

/// Storing teams writes one name row per name of every team, team by team
/// and each team's names in order: there are as many rows as names in all,
/// and the rows of team `i` start after those of the teams before it and
/// are its names, each under the team.
pub proof fn lemma_team_name_rows(teams: Seq<ApiTeam>)
    ensures
        team_named(teams).len() == team_name_count(teams),
        forall|i: int, k: int| 0 <= i < teams.len() && 0 <= k < teams[i].names@.len() ==> #[trigger] team_name_row(teams, i, k),
    decreases teams.len(),
{
    if teams.len() > 0 {
        let rest = teams.drop_last();
        lemma_team_name_rows(rest);
        let n = teams.len() - 1;
        assert(teams.take(n) =~= rest);
        assert forall|i: int, k: int| 0 <= i < teams.len() && 0 <= k < teams[i].names@.len() implies #[trigger] team_name_row(teams, i, k) by {
            let m = teams.last().names@.map_values(|n: ApiTeamName| (teams.last().team_id, n));
            assert(team_named(teams) == team_named(rest) + m);
            if i < n {
                assert(teams.take(i) =~= rest.take(i));
                assert(teams[i] == rest[i]);
                assert(team_name_row(rest, i, k));
                let x = rest[i].names@[k];
                let idx = team_name_count(rest.take(i)) + k;
                assert(idx < team_named(rest).len());
                assert(team_named(rest)[idx] == (rest[i].team_id, x));
                assert((team_named(rest) + m)[idx] == team_named(rest)[idx]);
            } else {
                assert(teams[i] == teams.last());
                assert(team_name_count(teams.take(i)) == team_name_count(rest));
                let idx = team_name_count(rest) + k;
                assert(m[k] == (teams.last().team_id, teams.last().names@[k]));
                assert((team_named(rest) + m)[idx] == m[k]);
            }
        }
        assert(team_named(teams).len() == team_name_count(teams));
    }
}

} // verus!
