//! Matches of a series, with the results in them.
use vstd::prelude::*;
use crate::timespan::DieselTimespan;
use crate::result::types::results::{PlayerResult, TeamMatchResult};
use std::collections::HashMap;

verus! {

broadcast use vstd::std_specs::hash::group_hash_axioms;

/// A match of a series. `meta` is free-form JSON text.
#[derive(Debug, Clone)]
pub struct Match {
    pub match_id: u128,
    pub name: String,
    pub series_id: u128,
    pub meta: String,
    pub timespan: DieselTimespan,
}

/// A partial change to a match; `None` leaves a field as it is.
#[derive(Debug, Clone)]
pub struct MatchUpdate {
    pub match_id: u128,
    pub series_id: Option<u128>,
    pub name: Option<String>,
    pub meta: Option<String>,
    pub timespan: Option<DieselTimespan>,
}

/// A match as the clients send and see it, with, optionally, its results.
#[derive(Debug, Clone)]
pub struct ApiMatch {
    pub match_id: u128,
    pub name: String,
    pub meta: String,
    pub timespan: DieselTimespan,
    pub player_results: Option<Vec<PlayerResult>>,
    pub team_results: Option<Vec<TeamMatchResult>>,
}

/// A new match of the given series, with, optionally, its results.
#[derive(Debug, Clone)]
pub struct ApiMatchNew {
    pub match_id: u128,
    pub series_id: u128,
    pub name: String,
    pub meta: String,
    pub timespan: DieselTimespan,
    pub player_results: Option<Vec<PlayerResult>>,
    pub team_results: Option<Vec<TeamMatchResult>>,
}

/// The items of an optional list; none for no list.
pub open spec fn listed<T>(o: Option<Vec<T>>) -> Seq<T> {
    match o {
        Some(v) => v@,
        None => Seq::empty(),
    }
}

/// The stored form of a match of `series_id`.
pub open spec fn stored_match(match_id: u128, name: String, meta: String, timespan: DieselTimespan, series_id: u128) -> Match {
    Match { match_id, name, series_id, meta, timespan }
}

/// The player results of the new matches, match by match.
pub open spec fn new_player_results(ms: Seq<ApiMatchNew>) -> Seq<PlayerResult>
    decreases ms.len(),
{
    if ms.len() == 0 {
        Seq::empty()
    } else {
        new_player_results(ms.drop_last()) + listed(ms.last().player_results)
    }
}

/// The team results of the new matches, match by match.
pub open spec fn new_team_results(ms: Seq<ApiMatchNew>) -> Seq<TeamMatchResult>
    decreases ms.len(),
{
    if ms.len() == 0 {
        Seq::empty()
    } else {
        new_team_results(ms.drop_last()) + listed(ms.last().team_results)
    }
}

/// The items of an optional list, moved into a list of their own.
pub(crate) fn take_listed<T>(o: Option<Vec<T>>) -> (v: Vec<T>)
    ensures
        v@ == listed(o),
{
    match o {
        Some(v) => v,
        None => Vec::new(),
    }
}

/// Moves every item of `from` to the end of `to`.
pub(crate) fn move_all<T>(to: &mut Vec<T>, from: Vec<T>)
    ensures
        final(to)@ == old(to)@ + from@,
{
    let ghost start = to@;
    let ghost src = from@;
    for x in it: from.into_iter()
        invariant
            it.seq() == src,
            to@ == start + src.take(it.index() as int),
    {
        to.push(x);
        assert(src.take(it.index() + 1) =~= src.take(it.index() as int).push(x));
    }
    assert(src.take(src.len() as int) =~= src);
}

impl ApiMatch {
    /// What storing the match under `series_id` writes: the match, its
    /// player results and its team results (none for a missing list).
    pub fn insertable(self, series_id: u128) -> (r: (Match, Vec<PlayerResult>, Vec<TeamMatchResult>))
        ensures
            r.0 == stored_match(self.match_id, self.name, self.meta, self.timespan, series_id),
            r.1@ == listed(self.player_results),
            r.2@ == listed(self.team_results),
    {
        (
            Match { match_id: self.match_id, name: self.name, meta: self.meta, timespan: self.timespan, series_id },
            take_listed(self.player_results),
            take_listed(self.team_results),
        )
    }
}

impl ApiMatchNew {
    /// What storing new matches writes: the matches in order, then all their
    /// player results and all their team results, match by match.
    pub fn insert_rows(new: Vec<ApiMatchNew>) -> (r: (Vec<Match>, Vec<PlayerResult>, Vec<TeamMatchResult>))
        ensures
            r.0@.len() == new@.len(),
            forall|i: int| 0 <= i < new@.len() ==> #[trigger] r.0@[i] == stored_match(new@[i].match_id, new@[i].name, new@[i].meta, new@[i].timespan, new@[i].series_id),
            r.1@ == new_player_results(new@),
            r.2@ == new_team_results(new@),
    {
        let ghost src = new@;
        let mut matches: Vec<Match> = Vec::new();
        let mut player_results: Vec<PlayerResult> = Vec::new();
        let mut team_match_results: Vec<TeamMatchResult> = Vec::new();
        for m in it: new.into_iter()
            invariant
                it.seq() == src,
                0 <= it.index() <= src.len(),
                matches@.len() == it.index(),
                forall|i: int| 0 <= i < it.index() ==> #[trigger] matches@[i] == stored_match(src[i].match_id, src[i].name, src[i].meta, src[i].timespan, src[i].series_id),
                player_results@ == new_player_results(src.take(it.index() as int)),
                team_match_results@ == new_team_results(src.take(it.index() as int)),
        {
            let ghost i = it.index();
            assert(src.take(i + 1).drop_last() =~= src.take(i));
            assert(src.take(i + 1).last() == m);
            let series_id = m.series_id;
            let m2 = ApiMatch {
                match_id: m.match_id,
                name: m.name,
                meta: m.meta,
                timespan: m.timespan,
                player_results: m.player_results,
                team_results: m.team_results,
            };
            let (new_m, new_pr, new_tr) = m2.insertable(series_id);
            move_all(&mut player_results, new_pr);
            move_all(&mut team_match_results, new_tr);
            matches.push(new_m);
        }
        assert(src.take(src.len() as int) =~= src);
        (matches, player_results, team_match_results)
    }
}

/// The player results of one match, in the order given.
pub open spec fn player_results_of(results: Seq<PlayerResult>, match_id: u128) -> Seq<PlayerResult>
    decreases results.len(),
{
    if results.len() == 0 {
        Seq::empty()
    } else if results.last().match_id == match_id {
        player_results_of(results.drop_last(), match_id).push(results.last())
    } else {
        player_results_of(results.drop_last(), match_id)
    }
}

/// The team results of one match, in the order given.
pub open spec fn team_results_of(results: Seq<TeamMatchResult>, match_id: u128) -> Seq<TeamMatchResult>
    decreases results.len(),
{
    if results.len() == 0 {
        Seq::empty()
    } else if results.last().match_id == match_id {
        team_results_of(results.drop_last(), match_id).push(results.last())
    } else {
        team_results_of(results.drop_last(), match_id)
    }
}

/// Whether no two matches share an identifier.
pub open spec fn distinct_matches(matches: Seq<Match>) -> bool {
    forall|i: int, j: int| 0 <= i < j < matches.len() ==> #[trigger] matches[i].match_id != #[trigger] matches[j].match_id
}

/// Whether one of the matches has the given identifier.
pub open spec fn names_a_match(matches: Seq<Match>, match_id: u128) -> bool {
    exists|i: int| 0 <= i < matches.len() && #[trigger] matches[i].match_id == match_id
}

/// Adds `x` to the end of the list at position `k`.
fn push_to<T>(lists: &mut Vec<Vec<T>>, k: usize, x: T)
    requires
        k < old(lists)@.len(),
    ensures
        final(lists)@.len() == old(lists)@.len(),
        final(lists)@[k as int]@ == old(lists)@[k as int]@.push(x),
        forall|j: int| 0 <= j < old(lists)@.len() && j != k ==> final(lists)@[j] == old(lists)@[j],
{
    lists[k].push(x);
}

/// Where each match sits in the list.
fn index_matches(matches: &Vec<Match>) -> (index: HashMap<u128, usize>)
    requires
        distinct_matches(matches@),
    ensures
        forall|x: u128| #[trigger] index@.contains_key(x) <==> names_a_match(matches@, x),
        forall|x: u128| #[trigger] index@.contains_key(x) ==> index@[x] < matches@.len() && matches@[index@[x] as int].match_id == x,
{
    let mut index: HashMap<u128, usize> = HashMap::new();
    let mut k: usize = 0;
    while k < matches.len()
        invariant
            k <= matches@.len(),
            forall|x: u128| #[trigger] index@.contains_key(x) <==> exists|j: int| 0 <= j < k && #[trigger] matches@[j].match_id == x,
            forall|x: u128| #[trigger] index@.contains_key(x) ==> index@[x] < k && matches@[index@[x] as int].match_id == x,
        decreases matches@.len() - k,
    {
        index.insert(matches[k].match_id, k);
        assert forall|x: u128| #[trigger] index@.contains_key(x) <==> exists|j: int| 0 <= j < k + 1 && #[trigger] matches@[j].match_id == x by {
            if x == matches@[k as int].match_id {
                assert(matches@[k as int].match_id == x);
            }
        }
        k = k + 1;
    }
    index
}

/// One empty list per match.
fn empty_lists<T>(n: usize) -> (lists: Vec<Vec<T>>)
    ensures
        lists@.len() == n,
        forall|j: int| 0 <= j < n ==> (#[trigger] lists@[j])@ == Seq::<T>::empty(),
{
    let mut lists: Vec<Vec<T>> = Vec::new();
    let mut k: usize = 0;
    while k < n
        invariant
            k <= n,
            lists@.len() == k,
            forall|j: int| 0 <= j < k ==> (#[trigger] lists@[j])@ == Seq::<T>::empty(),
        decreases n - k,
    {
        lists.push(Vec::new());
        k = k + 1;
    }
    lists
}

impl ApiMatchNew {
    /// The stored matches, each with its player results and its team
    /// results, in the order given, as the server hands them back after
    /// storing new matches. The matches have distinct identifiers, and every
    /// result belongs to one of them.
    pub fn group_results(
        matches: Vec<Match>,
        player_results: Vec<PlayerResult>,
        team_results: Vec<TeamMatchResult>,
    ) -> (out: Vec<(Match, Vec<PlayerResult>, Vec<TeamMatchResult>)>)
        requires
            distinct_matches(matches@),
            forall|a: int| 0 <= a < player_results@.len() ==> names_a_match(matches@, #[trigger] player_results@[a].match_id),
            forall|a: int| 0 <= a < team_results@.len() ==> names_a_match(matches@, #[trigger] team_results@[a].match_id),
        ensures
            out@.len() == matches@.len(),
            forall|i: int| 0 <= i < matches@.len() ==> {
                &&& (#[trigger] out@[i]).0 == matches@[i]
                &&& out@[i].1@ == player_results_of(player_results@, matches@[i].match_id)
                &&& out@[i].2@ == team_results_of(team_results@, matches@[i].match_id)
            },
    {
        let ghost ms = matches@;
        let ghost prs = player_results@;
        let ghost trs = team_results@;
        let n = matches.len();
        let index = index_matches(&matches);
        let mut pgroups: Vec<Vec<PlayerResult>> = empty_lists(n);
        for r in it: player_results.into_iter()
            invariant
                it.seq() == prs,
                0 <= it.index() <= prs.len(),
                ms == matches@,
                n == ms.len(),
                distinct_matches(ms),
                forall|a: int| 0 <= a < prs.len() ==> names_a_match(ms, #[trigger] prs[a].match_id),
                forall|x: u128| #[trigger] index@.contains_key(x) <==> names_a_match(ms, x),
                forall|x: u128| #[trigger] index@.contains_key(x) ==> index@[x] < ms.len() && ms[index@[x] as int].match_id == x,
                pgroups@.len() == n,
                forall|j: int| 0 <= j < n ==> (#[trigger] pgroups@[j])@ == player_results_of(prs.take(it.index() as int), ms[j].match_id),
        {
            let ghost t = it.index();
            assert(prs.take(t + 1).drop_last() =~= prs.take(t));
            assert(prs.take(t + 1).last() == r);
            assert(names_a_match(ms, prs[t].match_id));
            let k = *index.get(&r.match_id).unwrap();
            push_to(&mut pgroups, k, r);
            assert forall|j: int| 0 <= j < n implies (#[trigger] pgroups@[j])@ == player_results_of(prs.take(t + 1), ms[j].match_id) by {
                if j != k {
                    if j < k {
                        assert(ms[j].match_id != ms[k as int].match_id);
                    } else {
                        assert(ms[k as int].match_id != ms[j].match_id);
                    }
                }
            }
        }
        assert(prs.take(prs.len() as int) =~= prs);
        let mut tgroups: Vec<Vec<TeamMatchResult>> = empty_lists(n);
        for r in it: team_results.into_iter()
            invariant
                it.seq() == trs,
                0 <= it.index() <= trs.len(),
                ms == matches@,
                n == ms.len(),
                distinct_matches(ms),
                forall|a: int| 0 <= a < trs.len() ==> names_a_match(ms, #[trigger] trs[a].match_id),
                forall|x: u128| #[trigger] index@.contains_key(x) <==> names_a_match(ms, x),
                forall|x: u128| #[trigger] index@.contains_key(x) ==> index@[x] < ms.len() && ms[index@[x] as int].match_id == x,
                tgroups@.len() == n,
                forall|j: int| 0 <= j < n ==> (#[trigger] tgroups@[j])@ == team_results_of(trs.take(it.index() as int), ms[j].match_id),
        {
            let ghost t = it.index();
            assert(trs.take(t + 1).drop_last() =~= trs.take(t));
            assert(trs.take(t + 1).last() == r);
            assert(names_a_match(ms, trs[t].match_id));
            let k = *index.get(&r.match_id).unwrap();
            push_to(&mut tgroups, k, r);
            assert forall|j: int| 0 <= j < n implies (#[trigger] tgroups@[j])@ == team_results_of(trs.take(t + 1), ms[j].match_id) by {
                if j != k {
                    if j < k {
                        assert(ms[j].match_id != ms[k as int].match_id);
                    } else {
                        assert(ms[k as int].match_id != ms[j].match_id);
                    }
                }
            }
        }
        assert(trs.take(trs.len() as int) =~= trs);
        let mut matches = matches;
        let mut rev: Vec<(Match, Vec<PlayerResult>, Vec<TeamMatchResult>)> = Vec::new();
        while matches.len() > 0
            invariant
                matches@.len() <= n,
                n == ms.len(),
                matches@ == ms.take(matches@.len() as int),
                pgroups@.len() == matches@.len(),
                tgroups@.len() == matches@.len(),
                forall|j: int| 0 <= j < matches@.len() ==> (#[trigger] pgroups@[j])@ == player_results_of(prs, ms[j].match_id),
                forall|j: int| 0 <= j < matches@.len() ==> (#[trigger] tgroups@[j])@ == team_results_of(trs, ms[j].match_id),
                rev@.len() + matches@.len() == n,
                forall|j: int| 0 <= j < rev@.len() ==> {
                    &&& (#[trigger] rev@[j]).0 == ms[n - 1 - j]
                    &&& rev@[j].1@ == player_results_of(prs, ms[n - 1 - j].match_id)
                    &&& rev@[j].2@ == team_results_of(trs, ms[n - 1 - j].match_id)
                },
            decreases matches@.len(),
        {
            let ghost len = matches@.len();
            let m = matches.pop().unwrap();
            let pg = pgroups.pop().unwrap();
            let tg = tgroups.pop().unwrap();
            assert(ms[len - 1] == m);
            assert(matches@ =~= ms.take(matches@.len() as int));
            rev.push((m, pg, tg));
        }
        let mut out: Vec<(Match, Vec<PlayerResult>, Vec<TeamMatchResult>)> = Vec::new();
        while rev.len() > 0
            invariant
                n == ms.len(),
                rev@.len() + out@.len() == n,
                forall|j: int| 0 <= j < rev@.len() ==> {
                    &&& (#[trigger] rev@[j]).0 == ms[n - 1 - j]
                    &&& rev@[j].1@ == player_results_of(prs, ms[n - 1 - j].match_id)
                    &&& rev@[j].2@ == team_results_of(trs, ms[n - 1 - j].match_id)
                },
                forall|i: int| 0 <= i < out@.len() ==> {
                    &&& (#[trigger] out@[i]).0 == ms[i]
                    &&& out@[i].1@ == player_results_of(prs, ms[i].match_id)
                    &&& out@[i].2@ == team_results_of(trs, ms[i].match_id)
                },
            decreases rev@.len(),
        {
            let g = rev.pop().unwrap();
            out.push(g);
        }
        out
    }
}

/// Storing new matches writes every player result of every match, match by
/// match and each match's results in order: the rows are the matches'
/// result lists laid end to end.
pub proof fn lemma_new_player_results_are_all_results(ms: Seq<ApiMatchNew>)
    ensures
        new_player_results(ms) == ms.map_values(|m: ApiMatchNew| listed(m.player_results)).flatten(),
    decreases ms.len(),
{
    let lists = ms.map_values(|m: ApiMatchNew| listed(m.player_results));
    lists.lemma_flatten_and_flatten_alt_are_equivalent();
    if ms.len() > 0 {
        lemma_new_player_results_are_all_results(ms.drop_last());
        let rest = ms.drop_last().map_values(|m: ApiMatchNew| listed(m.player_results));
        assert(lists.drop_last() =~= rest);
        rest.lemma_flatten_and_flatten_alt_are_equivalent();
    }
}

/// Storing new matches writes every team result of every match, match by
/// match and each match's results in order: the rows are the matches'
/// result lists laid end to end.
pub proof fn lemma_new_team_results_are_all_results(ms: Seq<ApiMatchNew>)
    ensures
        new_team_results(ms) == ms.map_values(|m: ApiMatchNew| listed(m.team_results)).flatten(),
    decreases ms.len(),
{
    let lists = ms.map_values(|m: ApiMatchNew| listed(m.team_results));
    lists.lemma_flatten_and_flatten_alt_are_equivalent();
    if ms.len() > 0 {
        lemma_new_team_results_are_all_results(ms.drop_last());
        let rest = ms.drop_last().map_values(|m: ApiMatchNew| listed(m.team_results));
        assert(lists.drop_last() =~= rest);
        rest.lemma_flatten_and_flatten_alt_are_equivalent();
    }
}

} // verus!
