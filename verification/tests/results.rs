use fantasy_sport::timespan::{Timestamp, new_dieseltimespan};
use fantasy_sport::result::types::players::{Player, PlayerName, PlayerPosition, ApiPlayer, ApiPlayerName};
use fantasy_sport::result::types::teams::{Team, TeamName, TeamPlayer, ApiTeam, ApiTeamName};
use fantasy_sport::result::hierarchy::{teams_with_players, teams_with_names};
use fantasy_sport::result::subscriptions::SubType;
use fantasy_sport::ws_server::{Subscription, subscribed_publishables};
use fantasy_sport::leaderboard::types::{Leaderboard, Stat, ApiStat, ApiLeaderboard};

fn ts(secs: i64) -> Timestamp {
    Timestamp::new(secs, 0)
}

fn player(id: u128, meta: &str) -> Player {
    Player { player_id: id, meta: meta.to_string() }
}

fn pname(id: u128, name: &str) -> PlayerName {
    PlayerName { player_name_id: 0, player_id: id, name: name.to_string(), timespan: new_dieseltimespan(ts(0), ts(1)) }
}

fn ppos(id: u128, pos: &str) -> PlayerPosition {
    PlayerPosition { player_position_id: 0, player_id: id, position: pos.to_string(), timespan: new_dieseltimespan(ts(0), ts(1)) }
}

#[test]
fn player_rows_are_gathered() {
    let rows = vec![
        (player(2, "first"), pname(2, "a"), ppos(2, "mid")),
        (player(1, "x"), pname(1, "b"), ppos(1, "carry")),
        (player(2, "second"), pname(2, "c"), ppos(2, "support")),
    ];
    let out = ApiPlayer::from_rows(rows);
    assert_eq!(out.len(), 2);
    assert_eq!(out[0].player_id, 2);
    assert_eq!(out[0].meta, "first");
    let names: Vec<&str> = out[0].names.as_ref().unwrap().iter().map(|n| n.name.as_str()).collect();
    assert_eq!(names, vec!["a", "c"]);
    let positions: Vec<&str> = out[0].positions.as_ref().unwrap().iter().map(|p| p.position.as_str()).collect();
    assert_eq!(positions, vec!["mid", "support"]);
    assert_eq!(out[1].player_id, 1);
    assert!(ApiPlayer::from_rows(vec![]).is_empty());
}

#[test]
fn player_with_loaded_parts() {
    let out = ApiPlayer::from_diesel_rows(vec![(player(3, "m"), vec![pname(3, "n1"), pname(3, "n2")], vec![])]);
    assert_eq!(out[0].player_id, 3);
    assert_eq!(out[0].names.as_ref().unwrap().len(), 2);
    assert_eq!(out[0].names.as_ref().unwrap()[1].name, "n2");
    assert!(out[0].positions.as_ref().unwrap().is_empty());
}

#[test]
fn storing_players_writes_names() {
    let span = new_dieseltimespan(ts(0), ts(9));
    let players = vec![
        ApiPlayer { player_id: 1, meta: "m1".to_string(), names: Some(vec![ApiPlayerName { name: "a".to_string(), timespan: span }, ApiPlayerName { name: "b".to_string(), timespan: span }]), positions: None },
        ApiPlayer { player_id: 2, meta: "m2".to_string(), names: None, positions: None },
        ApiPlayer { player_id: 3, meta: "m3".to_string(), names: Some(vec![ApiPlayerName { name: "c".to_string(), timespan: span }]), positions: None },
    ];
    let (names, raw) = ApiPlayer::insert_rows(players);
    let got: Vec<(u128, &str)> = names.iter().map(|n| (n.player_id, n.name.as_str())).collect();
    assert_eq!(got, vec![(1, "a"), (1, "b"), (3, "c")]);
    assert_ne!(names[0].player_name_id, names[1].player_name_id);
    assert_eq!(raw.iter().map(|p| p.player_id).collect::<Vec<_>>(), vec![1, 2, 3]);
    assert_eq!(raw[1].meta, "m2");
}

fn team(id: u128) -> Team {
    Team { team_id: id, meta: format!("team {}", id) }
}

fn tname(id: u128, name: &str) -> TeamName {
    TeamName { team_name_id: 0, team_id: id, name: name.to_string(), timespan: new_dieseltimespan(ts(0), ts(1)) }
}

#[test]
fn team_rows_are_gathered() {
    let out = ApiTeam::from_rows(vec![(team(5), tname(5, "old")), (team(6), tname(6, "x")), (team(5), tname(5, "new"))]);
    assert_eq!(out.len(), 2);
    assert_eq!(out[0].team_id, 5);
    let names: Vec<&str> = out[0].names.iter().map(|n| n.name.as_str()).collect();
    assert_eq!(names, vec!["old", "new"]);
    assert_eq!(out[1].meta, "team 6");
}

#[test]
fn storing_teams_writes_names() {
    let span = new_dieseltimespan(ts(0), ts(9));
    let teams = vec![ApiTeam { team_id: 4, meta: "m".to_string(), names: vec![ApiTeamName { name: "n".to_string(), timespan: span }] }];
    let (names, raw) = ApiTeam::insert_rows(teams);
    assert_eq!((names[0].team_id, names[0].name.as_str(), names[0].timespan), (4, "n", span));
    assert_eq!((raw[0].team_id, raw[0].meta.as_str()), (4, "m"));
}

fn membership(team_id: u128, player_id: u128) -> TeamPlayer {
    TeamPlayer { team_player_id: 0, team_id, player_id, timespan: new_dieseltimespan(ts(0), ts(1)) }
}

fn api_player(id: u128) -> ApiPlayer {
    ApiPlayer { player_id: id, meta: format!("p{}", id), names: Some(vec![]), positions: None }
}

#[test]
fn teams_assembled_with_players() {
    let teams = vec![(team(1), vec![tname(1, "one")]), (team(2), vec![]), (team(1), vec![])];
    let memberships = vec![membership(1, 10), membership(2, 20), membership(1, 11), membership(9, 10)];
    let out = teams_with_players(teams, memberships, vec![api_player(20), api_player(10), api_player(11)]);
    assert_eq!(out.len(), 3);
    let ids: Vec<u128> = out[0].players.as_ref().unwrap().iter().map(|m| m.player.player_id).collect();
    assert_eq!(ids, vec![10, 11]);
    assert_eq!(out[0].players.as_ref().unwrap()[0].player.meta, "p10");
    assert_eq!(out[0].names.as_ref().unwrap()[0].name, "one");
    assert_eq!(out[1].players.as_ref().unwrap()[0].player.player_id, 20);
    // A team that comes up again gets no players the second time.
    assert!(out[2].players.as_ref().unwrap().is_empty());
    let named = teams_with_names(vec![(team(3), vec![tname(3, "three")])]);
    assert!(named[0].players.is_none());
    assert_eq!(named[0].names.as_ref().unwrap()[0].name, "three");
}

#[test]
fn teams_published_to_team_subscribers() {
    let out = teams_with_names(vec![(team(1), vec![]), (team(2), vec![])]);
    let mut sub = Subscription::new();
    sub.subscribe(&vec![2]);
    let got: Vec<u128> = subscribed_publishables(&out, &sub, &SubType::Team, &None).iter().map(|t| t.team_id).collect();
    assert_eq!(got, vec![2]);
    let got = subscribed_publishables(&out, &sub, &SubType::Competition, &None);
    assert_eq!(got.len(), 2);
}

fn board(id: u128, league: u128) -> Leaderboard {
    Leaderboard { leaderboard_id: id, league_id: league, name: "b".to_string(), meta: "{}".to_string(), timespan: new_dieseltimespan(ts(0), ts(1)) }
}

fn stat(board: u128, player: u128) -> Stat {
    Stat { player_id: player, leaderboard_id: board, timestamp: ts(3), points: 1.5f32.to_bits(), meta: "{}".to_string() }
}

#[test]
fn stats_tagged_with_league() {
    let out = ApiStat::from_rows(vec![(board(1, 100), vec![stat(1, 7), stat(1, 8)]), (board(2, 200), vec![stat(2, 9)])]);
    let got: Vec<(u128, u128)> = out.iter().map(|s| (s.player_id, s.league_id)).collect();
    assert_eq!(got, vec![(7, 100), (8, 100), (9, 200)]);
    assert_eq!(f32::from_bits(out[0].points), 1.5);
    let lb = ApiLeaderboard::from((board(3, 300), vec![stat(3, 1)]));
    assert_eq!((lb.leaderboard_id, lb.league_id, lb.stats.len()), (3, 300, 1));
}

use fantasy_sport::result::types::matches::{ApiMatch, ApiMatchNew};
use fantasy_sport::result::types::results::{PlayerResult, TeamMatchResult, TeamSeriesResult};
use fantasy_sport::result::types::series::{ApiSeries, SeriesTeam};

fn presult(player: u128, m: u128) -> PlayerResult {
    PlayerResult { player_id: player, match_id: m, result: Some("{\"kills\":3}".to_string()), meta: "{}".to_string() }
}

fn tresult(team: u128, m: u128) -> TeamMatchResult {
    TeamMatchResult { team_id: team, match_id: m, result: Some("win".to_string()), meta: "{}".to_string() }
}

#[test]
fn storing_matches_flattens_results() {
    let span = new_dieseltimespan(ts(0), ts(9));
    let new = vec![
        ApiMatchNew { match_id: 1, series_id: 10, name: "a".to_string(), meta: "{}".to_string(), timespan: span, player_results: Some(vec![presult(5, 1), presult(6, 1)]), team_results: None },
        ApiMatchNew { match_id: 2, series_id: 11, name: "b".to_string(), meta: "{}".to_string(), timespan: span, player_results: Some(vec![presult(7, 2)]), team_results: Some(vec![tresult(3, 2)]) },
    ];
    let (matches, prs, trs) = ApiMatchNew::insert_rows(new);
    assert_eq!(matches.iter().map(|m| (m.match_id, m.series_id)).collect::<Vec<_>>(), vec![(1, 10), (2, 11)]);
    assert_eq!(prs.iter().map(|p| p.player_id).collect::<Vec<_>>(), vec![5, 6, 7]);
    assert_eq!(trs.iter().map(|t| t.team_id).collect::<Vec<_>>(), vec![3]);
}

#[test]
fn storing_a_series() {
    let span = new_dieseltimespan(ts(0), ts(9));
    let series = ApiSeries {
        series_id: 20,
        name: "s".to_string(),
        meta: "{}".to_string(),
        timespan: span,
        matches: vec![ApiMatch { match_id: 1, name: "m".to_string(), meta: "{}".to_string(), timespan: span, player_results: None, team_results: Some(vec![tresult(4, 1)]) }],
        teams: vec![SeriesTeam { series_id: 20, team_id: 4 }],
        team_results: vec![TeamSeriesResult { team_id: 4, series_id: 20, result: None, meta: "{}".to_string() }],
    };
    let (s, matches, prs, trs, teams, results) = series.insertable(30);
    assert_eq!((s.series_id, s.competition_id), (20, 30));
    assert_eq!((matches[0].match_id, matches[0].series_id), (1, 20));
    assert!(prs.is_empty());
    assert_eq!(trs.len(), 1);
    assert_eq!(teams[0].team_id, 4);
    assert_eq!(results[0].team_id, 4);
    let m = ApiMatch { match_id: 2, name: "x".to_string(), meta: "{}".to_string(), timespan: span, player_results: Some(vec![presult(1, 2)]), team_results: None };
    let (stored, prs, trs) = m.insertable(99);
    assert_eq!((stored.match_id, stored.series_id), (2, 99));
    assert_eq!(prs.len(), 1);
    assert!(trs.is_empty());
}

use fantasy_sport::result::types::matches::Match;

#[test]
fn stored_results_grouped_per_match() {
    let span = new_dieseltimespan(ts(0), ts(9));
    let matches = vec![
        Match { match_id: 1, name: "a".to_string(), series_id: 9, meta: "{}".to_string(), timespan: span },
        Match { match_id: 2, name: "b".to_string(), series_id: 9, meta: "{}".to_string(), timespan: span },
    ];
    let out = ApiMatchNew::group_results(matches, vec![presult(5, 2), presult(6, 1), presult(7, 2)], vec![tresult(3, 1)]);
    assert_eq!(out.len(), 2);
    assert_eq!(out[0].0.match_id, 1);
    assert_eq!(out[0].1.iter().map(|p| p.player_id).collect::<Vec<_>>(), vec![6]);
    assert_eq!(out[1].1.iter().map(|p| p.player_id).collect::<Vec<_>>(), vec![5, 7]);
    assert_eq!(out[0].2.len(), 1);
    assert!(out[1].2.is_empty());
}
