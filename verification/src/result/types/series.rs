//! Series of a competition, with their matches, teams and results.
use vstd::prelude::*;
use crate::timespan::DieselTimespan;
use crate::result::types::results::{PlayerResult, TeamMatchResult, TeamSeriesResult};
use crate::result::types::matches::{ApiMatch, Match, move_all, stored_match, listed};

verus! {

/// A series of a competition. `meta` is free-form JSON text.
#[derive(Debug, Clone)]
pub struct Series {
    pub series_id: u128,
    pub name: String,
    pub competition_id: u128,
    pub meta: String,
    pub timespan: DieselTimespan,
}

/// A partial change to a series; `None` leaves a field as it is.
#[derive(Debug, Clone)]
pub struct UpdateSeries {
    pub series_id: u128,
    pub competition_id: Option<u128>,
    pub name: Option<String>,
    pub meta: Option<String>,
    pub timespan: Option<DieselTimespan>,
}

/// A team taking part in a series.
#[derive(Debug, Clone, Copy, PartialEq, Eq, Structural)]
pub struct SeriesTeam {
    pub series_id: u128,
    pub team_id: u128,
}

/// A series as the clients send and see it, with its matches, teams and results.
#[derive(Debug, Clone)]
pub struct ApiSeries {
    pub series_id: u128,
    pub name: String,
    pub meta: String,
    pub timespan: DieselTimespan,
    pub matches: Vec<ApiMatch>,
    pub teams: Vec<SeriesTeam>,
    pub team_results: Vec<TeamSeriesResult>,
}

/// A new series of a competition, with the teams taking part.
#[derive(Debug, Clone)]
pub struct ApiNewSeries {
    pub series_id: Option<u128>,
    pub competition_id: u128,
    pub name: String,
    pub meta: String,
    pub timespan: DieselTimespan,
    pub teams: Vec<u128>,
}

/// The player results of the matches, match by match.
pub open spec fn match_player_results(ms: Seq<ApiMatch>) -> Seq<PlayerResult>
    decreases ms.len(),
{
    if ms.len() == 0 {
        Seq::empty()
    } else {
        match_player_results(ms.drop_last()) + listed(ms.last().player_results)
    }
}

/// The team results of the matches, match by match.
pub open spec fn match_team_results(ms: Seq<ApiMatch>) -> Seq<TeamMatchResult>
    decreases ms.len(),
{
    if ms.len() == 0 {
        Seq::empty()
    } else {
        match_team_results(ms.drop_last()) + listed(ms.last().team_results)
    }
}

impl ApiSeries {
    /// What storing the series under `competition_id` writes: the series,
    /// its matches in order, all their player and team results match by
    /// match, its teams and its results.
    pub fn insertable(self, competition_id: u128) -> (r: (Series, Vec<Match>, Vec<PlayerResult>, Vec<TeamMatchResult>, Vec<SeriesTeam>, Vec<TeamSeriesResult>))
        ensures
            r.0 == (Series { series_id: self.series_id, name: self.name, meta: self.meta, timespan: self.timespan, competition_id }),
            r.1@.len() == self.matches@.len(),
            forall|i: int| 0 <= i < self.matches@.len() ==> #[trigger] r.1@[i] == stored_match(self.matches@[i].match_id, self.matches@[i].name, self.matches@[i].meta, self.matches@[i].timespan, self.series_id),
            r.2@ == match_player_results(self.matches@),
            r.3@ == match_team_results(self.matches@),
            r.4@ == self.teams@,
            r.5@ == self.team_results@,
    {
        let series_id = self.series_id;
        let ghost src = self.matches@;
        let mut matches: Vec<Match> = Vec::new();
        let mut player_results: Vec<PlayerResult> = Vec::new();
        let mut team_match_results: Vec<TeamMatchResult> = Vec::new();
        for m in it: self.matches.into_iter()
            invariant
                it.seq() == src,
                0 <= it.index() <= src.len(),
                matches@.len() == it.index(),
                forall|i: int| 0 <= i < it.index() ==> #[trigger] matches@[i] == stored_match(src[i].match_id, src[i].name, src[i].meta, src[i].timespan, series_id),
                player_results@ == match_player_results(src.take(it.index() as int)),
                team_match_results@ == match_team_results(src.take(it.index() as int)),
        {
            let ghost i = it.index();
            assert(src.take(i + 1).drop_last() =~= src.take(i));
            assert(src.take(i + 1).last() == m);
            let (new_m, new_pr, new_tr) = m.insertable(series_id);
            move_all(&mut player_results, new_pr);
            move_all(&mut team_match_results, new_tr);
            matches.push(new_m);
        }
        assert(src.take(src.len() as int) =~= src);
        (
            Series { series_id: self.series_id, name: self.name, meta: self.meta, timespan: self.timespan, competition_id },
            matches,
            player_results,
            team_match_results,
            self.teams,
            self.team_results,
        )
    }
}

/// Storing a series writes every player result of every one of its matches,
/// match by match and each match's results in order: the rows are the
/// matches' result lists laid end to end.
pub proof fn lemma_match_player_results_are_all_results(ms: Seq<ApiMatch>)
    ensures
        match_player_results(ms) == ms.map_values(|m: ApiMatch| listed(m.player_results)).flatten(),
    decreases ms.len(),
{
    let lists = ms.map_values(|m: ApiMatch| listed(m.player_results));
    lists.lemma_flatten_and_flatten_alt_are_equivalent();
    if ms.len() > 0 {
        lemma_match_player_results_are_all_results(ms.drop_last());
        let rest = ms.drop_last().map_values(|m: ApiMatch| listed(m.player_results));
        assert(lists.drop_last() =~= rest);
        rest.lemma_flatten_and_flatten_alt_are_equivalent();
    }
}

/// Storing a series writes every team result of every one of its matches,
/// match by match and each match's results in order: the rows are the
/// matches' result lists laid end to end.
pub proof fn lemma_match_team_results_are_all_results(ms: Seq<ApiMatch>)
    ensures
        match_team_results(ms) == ms.map_values(|m: ApiMatch| listed(m.team_results)).flatten(),
    decreases ms.len(),
{
    let lists = ms.map_values(|m: ApiMatch| listed(m.team_results));
    lists.lemma_flatten_and_flatten_alt_are_equivalent();
    if ms.len() > 0 {
        lemma_match_team_results_are_all_results(ms.drop_last());
        let rest = ms.drop_last().map_values(|m: ApiMatch| listed(m.team_results));
        assert(lists.drop_last() =~= rest);
        rest.lemma_flatten_and_flatten_alt_are_equivalent();
    }
}

} // verus!
