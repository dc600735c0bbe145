//! Leaderboards and stats. Points are decimal numbers on the wire; the
//! library only carries them and holds each as the bit pattern of its
//! 32-bit IEEE-754 value.
use vstd::prelude::*;
use crate::timespan::{DieselTimespan, Timestamp};

verus! {

/// A leaderboard of a league over a timespan. `meta` is free-form JSON text.
#[derive(Debug, Clone)]
pub struct Leaderboard {
    pub leaderboard_id: u128,
    pub league_id: u128,
    pub name: String,
    pub meta: String,
    pub timespan: DieselTimespan,
}

/// A player's points on a leaderboard, as of `timestamp`. `points` is the
/// bit pattern of a 32-bit float.
#[derive(Debug, Clone)]
pub struct Stat {
    pub player_id: u128,
    pub leaderboard_id: u128,
    pub timestamp: Timestamp,
    pub points: u32,
    pub meta: String,
}

/// A partial change to a leaderboard; `None` leaves a field as it is.
#[derive(Debug, Clone)]
pub struct LeaderboardUpdate {
    pub leaderboard_id: u128,
    pub league_id: Option<u128>,
    pub name: Option<String>,
    pub meta: Option<String>,
    pub timespan: Option<DieselTimespan>,
}

/// A stat as the clients see it, with the league of its leaderboard.
#[derive(Debug, Clone)]
pub struct ApiStat {
    pub player_id: u128,
    pub leaderboard_id: u128,
    pub league_id: u128,
    pub timestamp: Timestamp,
    pub points: u32,
    pub meta: String,
}

/// The client view of a stat on a leaderboard of `league_id`.
pub open spec fn api_stat(league_id: u128, s: Stat) -> ApiStat {
    ApiStat {
        league_id,
        player_id: s.player_id,
        leaderboard_id: s.leaderboard_id,
        timestamp: s.timestamp,
        points: s.points,
        meta: s.meta,
    }
}

/// The client view of every stat of the given leaderboards, leaderboard by
/// leaderboard and in each in the order given.
pub open spec fn api_stats_of_rows(rows: Seq<(Leaderboard, Vec<Stat>)>) -> Seq<ApiStat>
    decreases rows.len(),
{
    if rows.len() == 0 {
        Seq::empty()
    } else {
        let last = rows.last();
        api_stats_of_rows(rows.drop_last()) + last.1@.map_values(|s: Stat| api_stat(last.0.league_id, s))
    }
}

impl ApiStat {
    /// The stats of the given leaderboards, each tagged with its
    /// leaderboard's league, leaderboard by leaderboard.
    pub fn from_rows(rows: Vec<(Leaderboard, Vec<Stat>)>) -> (out: Vec<ApiStat>)
        ensures
            out@ == api_stats_of_rows(rows@),
    {
        let ghost src = rows@;
        let mut out: Vec<ApiStat> = Vec::new();
        for row in it: rows.into_iter()
            invariant
                it.seq() == src,
                0 <= it.index() <= src.len(),
                out@ == api_stats_of_rows(src.take(it.index() as int)),
        {
            let ghost idx = it.index();
            let (l, stats) = row;
            let league_id = l.league_id;
            let ghost before = out@;
            let ghost stats_seq = stats@;
            for s in jt: stats.into_iter()
                invariant
                    jt.seq() == stats_seq,
                    out@ == before + stats_seq.take(jt.index() as int).map_values(|s: Stat| api_stat(league_id, s)),
            {
                out.push(ApiStat {
                    league_id,
                    player_id: s.player_id,
                    leaderboard_id: s.leaderboard_id,
                    timestamp: s.timestamp,
                    points: s.points,
                    meta: s.meta,
                });
                assert(stats_seq.take(jt.index() + 1).map_values(|s: Stat| api_stat(league_id, s))
                    =~= stats_seq.take(jt.index() as int).map_values(|s: Stat| api_stat(league_id, s)).push(api_stat(league_id, s)));
            }
            assert(src.take(idx + 1).drop_last() =~= src.take(idx));
            assert(stats_seq.take(stats_seq.len() as int) =~= stats_seq);
        }
        assert(src.take(src.len() as int) =~= src);
        out
    }
}

/// A leaderboard with its stats, as the clients see it.
#[derive(Debug, Clone)]
pub struct ApiLeaderboard {
    pub leaderboard_id: u128,
    pub league_id: u128,
    pub name: String,
    pub meta: String,
    pub stats: Vec<Stat>,
}

impl ApiLeaderboard {
    /// A leaderboard together with its stats.
    pub fn from(rows: (Leaderboard, Vec<Stat>)) -> (a: ApiLeaderboard)
        ensures
            a == (ApiLeaderboard {
                leaderboard_id: rows.0.leaderboard_id,
                league_id: rows.0.league_id,
                name: rows.0.name,
                meta: rows.0.meta,
                stats: rows.1,
            }),
    {
        let (leaderboard, stats) = rows;
        ApiLeaderboard {
            leaderboard_id: leaderboard.leaderboard_id,
            league_id: leaderboard.league_id,
            name: leaderboard.name,
            meta: leaderboard.meta,
            stats: stats,
        }
    }
}

/// Loading stats gives every stat of every leaderboard row, leaderboard by
/// leaderboard and each leaderboard's stats in order, each carrying its own
/// player, leaderboard, time, points and meta and the league of the
/// leaderboard it was loaded with.
pub proof fn lemma_stats_of_rows_are_all_stats(rows: Seq<(Leaderboard, Vec<Stat>)>)
    ensures
        api_stats_of_rows(rows) == rows.map_values(|r: (Leaderboard, Vec<Stat>)| r.1@.map_values(|s: Stat| ApiStat {
            league_id: r.0.league_id,
            player_id: s.player_id,
            leaderboard_id: s.leaderboard_id,
            timestamp: s.timestamp,
            points: s.points,
            meta: s.meta,
        })).flatten(),
    decreases rows.len(),
{
    let f = |r: (Leaderboard, Vec<Stat>)| r.1@.map_values(|s: Stat| ApiStat {
        league_id: r.0.league_id,
        player_id: s.player_id,
        leaderboard_id: s.leaderboard_id,
        timestamp: s.timestamp,
        points: s.points,
        meta: s.meta,
    });
    let lists = rows.map_values(f);
    lists.lemma_flatten_and_flatten_alt_are_equivalent();
    if rows.len() > 0 {
        lemma_stats_of_rows_are_all_stats(rows.drop_last());
        let rest = rows.drop_last().map_values(f);
        assert(lists.drop_last() =~= rest);
        rest.lemma_flatten_and_flatten_alt_are_equivalent();
        let last = rows.last();
        assert(last.1@.map_values(|s: Stat| api_stat(last.0.league_id, s)) =~= f(last));
    }
}

} // verus!
