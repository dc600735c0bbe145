//! Players, their names and positions over time.
use vstd::prelude::*;
use crate::timespan::DieselTimespan;
use crate::ids::new_v4;
use std::collections::HashMap;

verus! {

broadcast use vstd::std_specs::hash::group_hash_axioms;

/// A player. `meta` is free-form JSON text.
#[derive(Debug, Clone)]
pub struct Player {
    pub player_id: u128,
    pub meta: String,
}

/// A player with, optionally, names and positions over time, as the clients see it.
#[derive(Debug, Clone)]
pub struct ApiPlayer {
    pub player_id: u128,
    pub meta: String,
    pub names: Option<Vec<ApiPlayerName>>,
    pub positions: Option<Vec<ApiPlayerPosition>>,
}

/// A partial change to a player; `None` leaves the field as it is.
#[derive(Debug, Clone)]
pub struct PlayerUpdate {
    pub player_id: u128,
    pub meta: Option<String>,
}

/// A stored name of a player during `timespan`.
#[derive(Debug, Clone)]
pub struct PlayerName {
    pub player_name_id: u128,
    pub player_id: u128,
    pub name: String,
    pub timespan: DieselTimespan,
}

/// A stored position of a player during `timespan`.
#[derive(Debug, Clone)]
pub struct PlayerPosition {
    pub player_position_id: u128,
    pub player_id: u128,
    pub position: String,
    pub timespan: DieselTimespan,
}

/// A player's name during `timespan`, as the clients see it.
#[derive(Debug, Clone)]
pub struct ApiPlayerName {
    pub name: String,
    pub timespan: DieselTimespan,
}

/// A new name for a player.
#[derive(Debug, Clone)]
pub struct ApiPlayerNameNew {
    pub player_id: u128,
    pub name: String,
    pub timespan: DieselTimespan,
}

/// A player's position during `timespan`, as the clients see it.
#[derive(Debug, Clone)]
pub struct ApiPlayerPosition {
    pub position: String,
    pub timespan: DieselTimespan,
}

/// A new position for a player.
#[derive(Debug, Clone)]
pub struct ApiPlayerPositionNew {
    pub player_id: u128,
    pub position: String,
    pub timespan: DieselTimespan,
}

/// The client view of a stored name.
pub open spec fn api_name(n: PlayerName) -> ApiPlayerName {
    ApiPlayerName { name: n.name, timespan: n.timespan }
}

/// The client view of a stored position.
pub open spec fn api_position(p: PlayerPosition) -> ApiPlayerPosition {
    ApiPlayerPosition { position: p.position, timespan: p.timespan }
}

/// A row joining a player with one of its names and one of its positions.
pub type PlayerRow = (Player, PlayerName, PlayerPosition);

/// The players of the rows, each once, in the order they first appear.
pub open spec fn row_player_ids(rows: Seq<PlayerRow>) -> Seq<u128>
    decreases rows.len(),
{
    if rows.len() == 0 {
        Seq::empty()
    } else {
        let before = row_player_ids(rows.drop_last());
        if before.contains(rows.last().0.player_id) {
            before
        } else {
            before.push(rows.last().0.player_id)
        }
    }
}

/// The metadata of the first row of a player.
pub open spec fn row_player_meta(rows: Seq<PlayerRow>, id: u128) -> String
    decreases rows.len(),
{
    if rows.len() == 0 {
        arbitrary()
    } else if row_player_ids(rows.drop_last()).contains(id) {
        row_player_meta(rows.drop_last(), id)
    } else {
        rows.last().0.meta
    }
}

/// The names of a player's rows, in row order.
pub open spec fn row_player_names(rows: Seq<PlayerRow>, id: u128) -> Seq<ApiPlayerName>
    decreases rows.len(),
{
    if rows.len() == 0 {
        Seq::empty()
    } else if rows.last().0.player_id == id {
        row_player_names(rows.drop_last(), id).push(api_name(rows.last().1))
    } else {
        row_player_names(rows.drop_last(), id)
    }
}

/// The positions of a player's rows, in row order.
pub open spec fn row_player_positions(rows: Seq<PlayerRow>, id: u128) -> Seq<ApiPlayerPosition>
    decreases rows.len(),
{
    if rows.len() == 0 {
        Seq::empty()
    } else if rows.last().0.player_id == id {
        row_player_positions(rows.drop_last(), id).push(api_position(rows.last().2))
    } else {
        row_player_positions(rows.drop_last(), id)
    }
}

/// A player's rows gathered into its client view: the first row's
/// metadata, and all names and positions in row order.
pub open spec fn gathered_player(p: ApiPlayer, rows: Seq<PlayerRow>, id: u128) -> bool {
    &&& p.player_id == id
    &&& p.meta == row_player_meta(rows, id)
    &&& p.names matches Some(ns) && ns@ == row_player_names(rows, id)
    &&& p.positions matches Some(ps) && ps@ == row_player_positions(rows, id)
}

/// The client view of a player loaded with its names and positions.
pub open spec fn api_player_of(p: Player, names: Seq<PlayerName>, positions: Seq<PlayerPosition>, out: ApiPlayer) -> bool {
    &&& out.player_id == p.player_id
    &&& out.meta == p.meta
    &&& out.names matches Some(ns) && ns@ == names.map_values(|n: PlayerName| api_name(n))
    &&& out.positions matches Some(ps) && ps@ == positions.map_values(|q: PlayerPosition| api_position(q))
}

/// A stored name row for a player's new name, under a fresh identifier.
pub open spec fn new_name_row(row: PlayerName, player_id: u128, n: ApiPlayerName) -> bool {
    row.player_id == player_id && row.name == n.name && row.timespan == n.timespan && crate::ids::is_v4(row.player_name_id)
}

/// The names of the players, player by player, each with the player it belongs to.
pub open spec fn named(players: Seq<ApiPlayer>) -> Seq<(u128, ApiPlayerName)>
    decreases players.len(),
{
    if players.len() == 0 {
        Seq::empty()
    } else {
        let p = players.last();
        named(players.drop_last()) + match p.names {
            Some(ns) => ns@.map_values(|n: ApiPlayerName| (p.player_id, n)),
            None => Seq::empty(),
        }
    }
}

/// Adds `x` to the end of the list at position `k`.
fn push_at<T>(lists: &mut Vec<Vec<T>>, k: usize, x: T)
    requires
        k < old(lists)@.len(),
    ensures
        final(lists)@.len() == old(lists)@.len(),
        final(lists)@[k as int]@ == old(lists)@[k as int]@.push(x),
        forall|j: int| 0 <= j < old(lists)@.len() && j != k ==> final(lists)@[j] == old(lists)@[j],
{
    lists[k].push(x);
}

/// A player that no row has contributes no name and no position.
proof fn lemma_absent_player(rows: Seq<PlayerRow>, id: u128)
    requires
        !row_player_ids(rows).contains(id),
    ensures
        row_player_names(rows, id) == Seq::<ApiPlayerName>::empty(),
        row_player_positions(rows, id) == Seq::<ApiPlayerPosition>::empty(),
    decreases rows.len(),
{
    if rows.len() > 0 {
        let before = row_player_ids(rows.drop_last());
        if before.contains(id) {
            let k = choose|k: int| 0 <= k < before.len() && before[k] == id;
            if !before.contains(rows.last().0.player_id) {
                assert(before.push(rows.last().0.player_id)[k] == id);
            }
        }
        if rows.last().0.player_id == id {
            if !before.contains(id) {
                assert(before.push(id)[before.len() as int] == id);
            }
        }
        lemma_absent_player(rows.drop_last(), id);
    }
}

/// Gathering rows loses no player and repeats none: each player of the rows
/// has exactly one entry, and every entry is the player of some row.
pub proof fn lemma_each_row_player_once(rows: Seq<PlayerRow>)
    ensures
        row_player_ids(rows).no_duplicates(),
        forall|a: int| 0 <= a < rows.len() ==> row_player_ids(rows).contains(#[trigger] rows[a].0.player_id),
        forall|k: int| #![trigger row_player_ids(rows)[k]] 0 <= k < row_player_ids(rows).len() ==> exists|a: int| 0 <= a < rows.len() && #[trigger] rows[a].0.player_id == row_player_ids(rows)[k],
    decreases rows.len(),
{
    if rows.len() > 0 {
        let rest = rows.drop_last();
        lemma_each_row_player_once(rest);
        let before = row_player_ids(rest);
        let id = rows.last().0.player_id;
        assert forall|a: int| 0 <= a < rows.len() implies row_player_ids(rows).contains(#[trigger] rows[a].0.player_id) by {
            if a < rows.len() - 1 {
                assert(rows[a] == rest[a]);
                assert(before.contains(rest[a].0.player_id));
                if !before.contains(id) {
                    let j = choose|j: int| 0 <= j < before.len() && before[j] == rest[a].0.player_id;
                    assert(before.push(id)[j] == rest[a].0.player_id);
                }
            } else {
                if !before.contains(id) {
                    assert(before.push(id)[before.len() as int] == id);
                }
            }
        }
        assert forall|k: int| #![trigger row_player_ids(rows)[k]] 0 <= k < row_player_ids(rows).len() implies exists|a: int| 0 <= a < rows.len() && #[trigger] rows[a].0.player_id == row_player_ids(rows)[k] by {
            if k < before.len() {
                let a = choose|a: int| 0 <= a < rest.len() && #[trigger] rest[a].0.player_id == before[k];
                assert(rows[a] == rest[a]);
            } else {
                assert(rows[rows.len() - 1] == rows.last());
            }
        }
    }
}

/// The players of the rows occur once each.
proof fn lemma_row_player_ids_distinct(rows: Seq<PlayerRow>)
    ensures
        row_player_ids(rows).no_duplicates(),
    decreases rows.len(),
{
    if rows.len() > 0 {
        lemma_row_player_ids_distinct(rows.drop_last());
    }
}

impl ApiPlayer {
    /// Gathers joined rows into one client view per player, players in the
    /// order they first appear (see `gathered_player`).
    pub fn from_rows(rows: Vec<PlayerRow>) -> (out: Vec<ApiPlayer>)
        ensures
            out@.len() == row_player_ids(rows@).len(),
            forall|k: int| 0 <= k < out@.len() ==> gathered_player(#[trigger] out@[k], rows@, row_player_ids(rows@)[k]),
    {
        let ghost src = rows@;
        let mut ids: Vec<u128> = Vec::new();
        let mut index: HashMap<u128, usize> = HashMap::new();
        let mut metas: Vec<String> = Vec::new();
        let mut names: Vec<Vec<ApiPlayerName>> = Vec::new();
        let mut positions: Vec<Vec<ApiPlayerPosition>> = Vec::new();
        for row in it: rows.into_iter()
            invariant
                it.seq() == src,
                0 <= it.index() <= src.len(),
                ids@ == row_player_ids(src.take(it.index() as int)),
                forall|x: u128| #[trigger] index@.contains_key(x) <==> ids@.contains(x),
                forall|x: u128| #[trigger] index@.contains_key(x) ==> index@[x] < ids@.len() && ids@[index@[x] as int] == x,
                metas@.len() == ids@.len(),
                names@.len() == ids@.len(),
                positions@.len() == ids@.len(),
                forall|k: int| 0 <= k < ids@.len() ==> #[trigger] metas@[k] == row_player_meta(src.take(it.index() as int), ids@[k]),
                forall|k: int| 0 <= k < ids@.len() ==> #[trigger] names@[k]@ == row_player_names(src.take(it.index() as int), ids@[k]),
                forall|k: int| 0 <= k < ids@.len() ==> #[trigger] positions@[k]@ == row_player_positions(src.take(it.index() as int), ids@[k]),
        {
            let ghost i = it.index();
            let ghost before = src.take(i);
            let ghost after = src.take(i + 1);
            assert(after.drop_last() =~= before);
            proof {
                lemma_row_player_ids_distinct(before);
            }
            let ghost old_ids = ids@;
            let ghost old_index = index@;
            let (player, player_name, player_position) = row;
            let id = player.player_id;
            let name = ApiPlayerName { name: player_name.name, timespan: player_name.timespan };
            let position = ApiPlayerPosition { position: player_position.position, timespan: player_position.timespan };
            match index.get(&id) {
                Some(k) => {
                    let k = *k;
                    assert(ids@.contains(id));
                    push_at(&mut names, k, name);
                    push_at(&mut positions, k, position);
                    assert forall|j: int| 0 <= j < ids@.len() && j != k implies ids@[j] != id by {
                        assert(ids@[k as int] == id);
                    }
                },
                None => {
                    assert(!ids@.contains(id));
                    proof {
                        lemma_absent_player(before, id);
                    }
                    let n = ids.len();
                    ids.push(id);
                    index.insert(id, n);
                    metas.push(player.meta);
                    names.push(vec![name]);
                    positions.push(vec![position]);
                    assert forall|x: u128| #[trigger] index@.contains_key(x) <==> ids@.contains(x) by {
                        if x == id {
                            assert(ids@[n as int] == id);
                        } else {
                            if ids@.contains(x) {
                                let j = choose|j: int| 0 <= j < ids@.len() && ids@[j] == x;
                                assert(old_ids[j] == x);
                            }
                            if old_ids.contains(x) {
                                let j = choose|j: int| 0 <= j < old_ids.len() && old_ids[j] == x;
                                assert(ids@[j] == x);
                            }
                        }
                    }
                    assert forall|j: int| 0 <= j < n implies old_ids[j] != id by {
                        if old_ids[j] == id {
                            assert(old_ids.contains(id));
                        }
                    }
                },
            }
        }
        let ghost full = row_player_ids(src);
        assert(src.take(src.len() as int) =~= src);
        let mut rev: Vec<ApiPlayer> = Vec::new();
        while ids.len() > 0
            invariant
                full == row_player_ids(src),
                ids@.len() <= full.len(),
                ids@ == full.take(ids@.len() as int),
                metas@.len() == ids@.len(),
                names@.len() == ids@.len(),
                positions@.len() == ids@.len(),
                forall|k: int| 0 <= k < ids@.len() ==> #[trigger] metas@[k] == row_player_meta(src, ids@[k]),
                forall|k: int| 0 <= k < ids@.len() ==> #[trigger] names@[k]@ == row_player_names(src, ids@[k]),
                forall|k: int| 0 <= k < ids@.len() ==> #[trigger] positions@[k]@ == row_player_positions(src, ids@[k]),
                rev@.len() + ids@.len() == full.len(),
                forall|j: int| 0 <= j < rev@.len() ==> gathered_player(#[trigger] rev@[j], src, full[full.len() - 1 - j]),
            decreases ids@.len(),
        {
            let ghost n = ids@.len();
            let id = ids.pop().unwrap();
            let meta = metas.pop().unwrap();
            let ns = names.pop().unwrap();
            let ps = positions.pop().unwrap();
            assert(full[n - 1] == id);
            assert(ids@ =~= full.take(ids@.len() as int));
            rev.push(ApiPlayer { player_id: id, meta, names: Some(ns), positions: Some(ps) });
        }
        let mut out: Vec<ApiPlayer> = Vec::new();
        while rev.len() > 0
            invariant
                full == row_player_ids(src),
                rev@.len() + out@.len() == full.len(),
                forall|j: int| 0 <= j < rev@.len() ==> gathered_player(#[trigger] rev@[j], src, full[full.len() - 1 - j]),
                forall|k: int| 0 <= k < out@.len() ==> gathered_player(#[trigger] out@[k], src, full[k]),
            decreases rev@.len(),
        {
            let p = rev.pop().unwrap();
            out.push(p);
        }
        out
    }

    /// The client view of each player loaded with its names and positions, in order.
    pub fn from_diesel_rows(rows: Vec<(Player, Vec<PlayerName>, Vec<PlayerPosition>)>) -> (out: Vec<ApiPlayer>)
        ensures
            out@.len() == rows@.len(),
            forall|k: int| 0 <= k < rows@.len() ==> api_player_of((#[trigger] rows@[k]).0, rows@[k].1@, rows@[k].2@, out@[k]),
    {
        let ghost src = rows@;
        let mut out: Vec<ApiPlayer> = Vec::new();
        for row in it: rows.into_iter()
            invariant
                it.seq() == src,
                out@.len() == it.index(),
                forall|k: int| 0 <= k < it.index() ==> api_player_of((#[trigger] src[k]).0, src[k].1@, src[k].2@, out@[k]),
        {
            let (p, names, positions) = row;
            let ghost name_src = names@;
            let ghost position_src = positions@;
            let mut api_names: Vec<ApiPlayerName> = Vec::new();
            for n in nt: names.into_iter()
                invariant
                    nt.seq() == name_src,
                    api_names@ == name_src.take(nt.index() as int).map_values(|n: PlayerName| api_name(n)),
            {
                api_names.push(ApiPlayerName { name: n.name, timespan: n.timespan });
                assert(name_src.take(nt.index() + 1) =~= name_src.take(nt.index() as int).push(n));
            }
            assert(name_src.take(name_src.len() as int) =~= name_src);
            let mut api_positions: Vec<ApiPlayerPosition> = Vec::new();
            for q in pt: positions.into_iter()
                invariant
                    pt.seq() == position_src,
                    api_positions@ == position_src.take(pt.index() as int).map_values(|q: PlayerPosition| api_position(q)),
            {
                api_positions.push(ApiPlayerPosition { position: q.position, timespan: q.timespan });
                assert(position_src.take(pt.index() + 1) =~= position_src.take(pt.index() as int).push(q));
            }
            assert(position_src.take(position_src.len() as int) =~= position_src);
            out.push(ApiPlayer {
                player_id: p.player_id,
                meta: p.meta,
                names: Some(api_names),
                positions: Some(api_positions),
            });
        }
        out
    }

    /// What storing new players writes: a name row with a fresh identifier
    /// for each of their names, player by player (see `named`), and the bare
    /// players, in order.
    pub fn insert_rows(players: Vec<ApiPlayer>) -> (rows: (Vec<PlayerName>, Vec<Player>))
        ensures
            rows.0@.len() == named(players@).len(),
            forall|k: int| 0 <= k < rows.0@.len() ==> new_name_row(#[trigger] rows.0@[k], named(players@)[k].0, named(players@)[k].1),
            rows.1@.len() == players@.len(),
            forall|k: int| 0 <= k < players@.len() ==> (#[trigger] rows.1@[k]).player_id == players@[k].player_id && rows.1@[k].meta == players@[k].meta,
    {
        let ghost src = players@;
        let mut name_rows: Vec<PlayerName> = Vec::new();
        let mut i: usize = 0;
        while i < players.len()
            invariant
                src == players@,
                i <= src.len(),
                name_rows@.len() == named(src.take(i as int)).len(),
                forall|k: int| 0 <= k < name_rows@.len() ==> new_name_row(#[trigger] name_rows@[k], named(src.take(i as int))[k].0, named(src.take(i as int))[k].1),
            decreases src.len() - i,
        {
            let p = &players[i];
            let ghost before = named(src.take(i as int));
            assert(src.take(i + 1).drop_last() =~= src.take(i as int));
            match &p.names {
                Some(ns) => {
                    let mut j: usize = 0;
                    while j < ns.len()
                        invariant
                            j <= ns@.len(),
                            name_rows@.len() == before.len() + j,
                            forall|k: int| 0 <= k < before.len() ==> new_name_row(#[trigger] name_rows@[k], before[k].0, before[k].1),
                            forall|k: int| 0 <= k < j ==> new_name_row(#[trigger] name_rows@[before.len() + k], p.player_id, ns@[k]),
                        decreases ns@.len() - j,
                    {
                        let n = &ns[j];
                        name_rows.push(PlayerName {
                            player_name_id: new_v4(),
                            player_id: p.player_id,
                            name: n.name.clone(),
                            timespan: n.timespan,
                        });
                        j = j + 1;
                    }
                    let ghost added = ns@.map_values(|n: ApiPlayerName| (p.player_id, n));
                    assert(named(src.take(i + 1)) =~= before + added);
                    assert forall|k: int| 0 <= k < name_rows@.len() implies new_name_row(#[trigger] name_rows@[k], named(src.take(i + 1))[k].0, named(src.take(i + 1))[k].1) by {
                        if k >= before.len() {
                            assert(name_rows@[k] == name_rows@[before.len() + (k - before.len())]);
                        }
                    }
                },
                None => {
                    assert(named(src.take(i + 1)) =~= before);
                },
            }
            i = i + 1;
        }
        assert(src.take(src.len() as int) =~= src);
        let mut raw: Vec<Player> = Vec::new();
        for p in it: players.into_iter()
            invariant
                it.seq() == src,
                raw@.len() == it.index(),
                forall|k: int| 0 <= k < it.index() ==> (#[trigger] raw@[k]).player_id == src[k].player_id && raw@[k].meta == src[k].meta,
        {
            raw.push(Player { player_id: p.player_id, meta: p.meta });
        }
        (name_rows, raw)
    }
}

/// How many names the players carry in all (none for a player without a list).
pub open spec fn player_name_count(players: Seq<ApiPlayer>) -> nat
    decreases players.len(),
{
    if players.len() == 0 {
        0
    } else {
        player_name_count(players.drop_last()) + match players.last().names {
            Some(ns) => ns@.len(),
            None => 0nat,
        }
    }
}

/// The `k`-th name of player `i` is written right after the names of the
/// players before it and its own earlier names, under the player.
pub open spec fn player_name_row(players: Seq<ApiPlayer>, i: int, k: int) -> bool {
    &&& player_name_count(players.take(i)) + k < named(players).len()
    &&& named(players)[player_name_count(players.take(i)) + k] == (players[i].player_id, players[i].names.unwrap()@[k])
}

/// Storing players writes one name row per name of every player, player by
/// player and each player's names in order: there are as many rows as
/// names in all, and the rows of player `i` start after those of the
/// players before it and are its names, each under the player.
pub proof fn lemma_player_name_rows(players: Seq<ApiPlayer>)
    ensures
        named(players).len() == player_name_count(players),
        forall|i: int, k: int| 0 <= i < players.len() && players[i].names is Some && 0 <= k < players[i].names.unwrap()@.len()
            ==> #[trigger] player_name_row(players, i, k),
    decreases players.len(),
{
    if players.len() > 0 {
        let rest = players.drop_last();
        lemma_player_name_rows(rest);
        let n = players.len() - 1;
        assert(players.take(n) =~= rest);
        assert forall|i: int, k: int| 0 <= i < players.len() && players[i].names is Some && 0 <= k < players[i].names.unwrap()@.len()
            implies #[trigger] player_name_row(players, i, k) by {
            let last = players.last();
            let m = match last.names {
                Some(ns) => ns@.map_values(|nm: ApiPlayerName| (last.player_id, nm)),
                None => Seq::empty(),
            };
            assert(named(players) == named(rest) + m);
            if i < n {
                assert(players.take(i) =~= rest.take(i));
                assert(players[i] == rest[i]);
                assert(player_name_row(rest, i, k));
                let idx = player_name_count(rest.take(i)) + k;
                assert((named(rest) + m)[idx] == named(rest)[idx]);
            } else {
                assert(players[i] == last);
                assert(player_name_count(players.take(i)) == player_name_count(rest));
                let idx = player_name_count(rest) + k;
                assert(m[k] == (last.player_id, last.names.unwrap()@[k]));
                assert((named(rest) + m)[idx] == m[k]);
            }
        }
    }
}

} // verus!
