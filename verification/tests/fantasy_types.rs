use std::collections::HashMap;
use fantasy_sport::timespan::{Timestamp, TimeBound, new_dieseltimespan};
use fantasy_sport::fantasy::errors::{InvalidTeamError, InvalidInputError, CustomError, NoValidPicksError};
use fantasy_sport::fantasy::position_map::PositionMap;
use fantasy_sport::fantasy::types::leagues::{League, ApiLeague, Period, StatMultiplier, MaxPlayersPerPosition};
use fantasy_sport::fantasy::types::fantasy_teams::{FantasyTeam, Pick};
use fantasy_sport::fantasy::types::drafts::{Draft, TeamDraft, DraftChoice, ApiDraftChoice, ApiPick};
use fantasy_sport::fantasy::active_picks::{league_for_active_picks, squad_max_per_position, verify_active_picks, ActivePicksError};
use fantasy_sport::fantasy::drafting::VecUuid;
use fantasy_sport::fantasy::result_client::update_team_and_position_maps;
use fantasy_sport::fantasy::types::team_hierarchy::{ApiTeamWithPlayersHierarchy, ApiTeamPlayerOut, ApiPlayer, ApiPlayerPosition};

fn ts(secs: i64) -> Timestamp {
    Timestamp::new(secs, 0)
}

fn league(id: u128) -> League {
    League {
        league_id: id,
        name: format!("league {}", id),
        team_size: 2,
        squad_size: 4,
        competition_id: 9,
        meta: "{\"a\":1}".to_string(),
        max_squad_players_same_team: 3,
        max_squad_players_same_position: 3,
        max_team_players_same_team: 1,
        max_team_players_same_position: 2,
    }
}

#[test]
fn error_texts() {
    assert_eq!(InvalidTeamError { description: "x".to_string() }.to_string(), "Invalid team: x");
    assert_eq!(InvalidInputError { description: "y" }.to_string(), "Invalid input: y");
    assert_eq!(CustomError { description: "z" }.to_string(), "Error: z");
    assert_eq!(NoValidPicksError {}.to_string(), "No valid picks to choose from");
}

#[test]
fn position_map_later_entry_wins() {
    let mut m = PositionMap::new();
    assert_eq!(m.get_or(&"mid".to_string(), 99), 99);
    m.insert("mid".to_string(), 2);
    m.insert("carry".to_string(), 1);
    m.insert("mid".to_string(), 5);
    assert_eq!(m.get_or(&"mid".to_string(), 99), 5);
    assert_eq!(m.get_or(&"carry".to_string(), 99), 1);
    assert_eq!(m.positions.len(), 2);
    assert_eq!(m.find(&"support".to_string()), None);
}

#[test]
fn league_views() {
    let api = ApiLeague::from_leagues(vec![league(1), league(2)]);
    assert_eq!(api.len(), 2);
    assert_eq!(api[1].league_id, 2);
    assert_eq!(api[0].meta, "{\"a\":1}");
    assert_eq!(api[0].max_team_players_same_team, 1);
    assert!(api[0].periods.is_none() && api[0].fantasy_teams.is_none());

    let period = Period::test();
    let multiplier = StatMultiplier { league_id: 1, name: "kills".to_string(), multiplier: 2.5f32.to_bits(), meta: "{}".to_string() };
    let limit = MaxPlayersPerPosition { league_id: 1, position: "mid".to_string(), team_max: 1, squad_max: 2 };
    let team = FantasyTeam { fantasy_team_id: 3, name: "t".to_string(), league_id: 1, external_user_id: 4, meta: "{}".to_string() };
    let api = ApiLeague::from_rows(vec![(league(1), vec![period], vec![multiplier], vec![limit], vec![team])]);
    assert_eq!(api.len(), 1);
    assert_eq!(api[0].periods.as_ref().unwrap()[0].name, "Test");
    assert_eq!(f32::from_bits(api[0].stat_multipliers.as_ref().unwrap()[0].multiplier), 2.5);
    assert_eq!(api[0].max_players_per_position.as_ref().unwrap()[0].squad_max, 2);
    assert_eq!(api[0].fantasy_teams.as_ref().unwrap()[0].fantasy_team_id, 3);
}

#[test]
fn sample_period() {
    let p = Period::test();
    assert_eq!(p.name, "Test");
    assert_eq!(p.meta, "{}");
    assert_eq!(f32::from_bits(p.points_multiplier), 1.0);
    assert_eq!(p.teams_per_draft, 5);
    assert_eq!(p.draft_interval_secs, 10);
    assert!(matches!(p.timespan.0, TimeBound::Included(_)));
    assert!(matches!(p.timespan.1, TimeBound::Excluded(_)));
    assert_ne!(p.period_id, p.league_id);
}

#[test]
fn draft_records() {
    let d = Draft::new(8);
    assert_eq!((d.period_id, d.meta.as_str()), (8, "{}"));
    let td = TeamDraft::new(d.draft_id, 3);
    assert_eq!((td.draft_id, td.fantasy_team_id), (d.draft_id, 3));
    let span = new_dieseltimespan(ts(0), ts(60));
    let c = DraftChoice::new(td.team_draft_id, span);
    assert_eq!(c.timespan, span);
    let api = ApiDraftChoice::new(3, td.team_draft_id, span);
    let back = DraftChoice::from(api);
    assert_eq!((back.draft_choice_id, back.team_draft_id, back.timespan), (api.draft_choice_id, api.team_draft_id, span));
    let pick = Pick { pick_id: 1, fantasy_team_id: 3, draft_choice_id: c.draft_choice_id, player_id: 7, timespan: span };
    let p = ApiPick::from_pick(pick, d.draft_id);
    assert_eq!((p.draft_id, p.fantasy_team_id, p.player_id), (Some(d.draft_id), Some(3), 7));
    let t = TeamDraft::test();
    assert_ne!(t.team_draft_id, t.draft_id);
}

#[test]
fn active_picks_need_one_league() {
    let none: Vec<League> = vec![];
    assert_eq!(league_for_active_picks(&none).unwrap_err().description, "Could not find a league for active picks");
    let two = vec![league(1), league(2)];
    let e = league_for_active_picks(&two).unwrap_err();
    assert_eq!(e.to_string(), "Invalid input: Active picks specified are from more than one league");
    let one = vec![league(5)];
    assert_eq!(league_for_active_picks(&one).unwrap().league_id, 5);
}

#[test]
fn squad_limits_later_entry_wins() {
    let m = squad_max_per_position(vec![
        MaxPlayersPerPosition { league_id: 1, position: "mid".to_string(), team_max: 1, squad_max: 2 },
        MaxPlayersPerPosition { league_id: 1, position: "mid".to_string(), team_max: 1, squad_max: 4 },
    ]);
    assert_eq!(m.get_or(&"mid".to_string(), 99), 4);
    assert_eq!(m.get_or(&"carry".to_string(), 99), 99);
}

#[test]
fn active_picks_checked_against_caches() {
    let l = league(1);
    let limits = squad_max_per_position(vec![]);
    let e = verify_active_picks(vec![], &None, &Some(HashMap::new()), &l, &limits).unwrap_err();
    assert_eq!(e.to_string(), "Error: Player team and position caches not yet populated");
    let mut pc = HashMap::new();
    let mut tc = HashMap::new();
    pc.insert(1u128, "mid".to_string());
    pc.insert(2u128, "mid".to_string());
    tc.insert(1u128, 10u128);
    tc.insert(2u128, 10u128);
    let ok = verify_active_picks(vec![VecUuid { inner: vec![1] }], &Some(pc.clone()), &Some(tc.clone()), &l, &limits);
    assert!(ok.unwrap());
    let e = verify_active_picks(vec![VecUuid { inner: vec![1, 2] }], &Some(pc), &Some(tc), &l, &limits).unwrap_err();
    assert!(matches!(e, ActivePicksError::Team(_)));
    assert_eq!(e.to_string(), "Invalid team: Team cannot have more than 1 players from same team");
}

fn member(team_id: u128, player_id: u128, from: i64, to: i64, positions: Vec<(&str, i64, i64)>) -> ApiTeamPlayerOut {
    ApiTeamPlayerOut {
        team_id,
        timespan: new_dieseltimespan(ts(from), ts(to)),
        player: ApiPlayer {
            player_id,
            meta: "{}".to_string(),
            names: None,
            positions: Some(positions.into_iter().map(|(p, a, b)| ApiPlayerPosition { position: p.to_string(), timespan: new_dieseltimespan(ts(a), ts(b)) }).collect()),
        },
    }
}

#[test]
fn caches_follow_current_memberships() {
    let teams = vec![
        ApiTeamWithPlayersHierarchy {
            team_id: 100,
            names: None,
            meta: "{}".to_string(),
            players: Some(vec![
                member(100, 1, 0, 50, vec![("mid", 0, 100)]),
                member(100, 2, 0, 5, vec![("carry", 0, 5), ("support", 5, 100)]),
            ]),
        },
        ApiTeamWithPlayersHierarchy {
            team_id: 200,
            names: None,
            meta: "{}".to_string(),
            players: Some(vec![member(200, 2, 5, 100, vec![])]),
        },
    ];
    let mut positions: Option<HashMap<u128, String>> = None;
    let mut team_map: Option<HashMap<u128, u128>> = Some(HashMap::new());
    team_map.as_mut().unwrap().insert(3, 300);
    update_team_and_position_maps(&teams, ts(10), &mut positions, &mut team_map);
    let positions = positions.unwrap();
    let team_map = team_map.unwrap();
    assert_eq!(team_map.get(&1), Some(&100));
    assert_eq!(team_map.get(&2), Some(&200));
    assert_eq!(team_map.get(&3), Some(&300));
    assert_eq!(positions.get(&1).map(|s| s.as_str()), Some("mid"));
    assert_eq!(positions.get(&2).map(|s| s.as_str()), Some("support"));
}

#[test]
fn picks_straight_into_team_when_team_is_the_squad() {
    let mut l = league(1);
    assert!(!fantasy_sport::fantasy::drafting::picks_go_straight_into_team(&l));
    l.team_size = l.squad_size;
    assert!(fantasy_sport::fantasy::drafting::picks_go_straight_into_team(&l));
}

use fantasy_sport::fantasy::active_picks::check_active_picks;
use fantasy_sport::fantasy::drafting::{handle_due_turn, TurnOutcome};

#[test]
fn active_picks_checked_in_order() {
    let none: Vec<League> = vec![];
    let e = check_active_picks(vec![], &none, &None, &None, vec![]).unwrap_err();
    assert_eq!(e.to_string(), "Invalid input: Could not find a league for active picks");
    let two = vec![league(1), league(2)];
    let e = check_active_picks(vec![], &two, &None, &None, vec![]).unwrap_err();
    assert_eq!(e.to_string(), "Invalid input: Active picks specified are from more than one league");
    let one = vec![league(1)];
    let e = check_active_picks(vec![], &one, &None, &Some(HashMap::new()), vec![]).unwrap_err();
    assert_eq!(e.to_string(), "Error: Player team and position caches not yet populated");
    let mut pc = HashMap::new();
    pc.insert(1u128, "mid".to_string());
    pc.insert(2u128, "mid".to_string());
    let mut tc = HashMap::new();
    tc.insert(1u128, 10u128);
    tc.insert(2u128, 20u128);
    let limits = vec![MaxPlayersPerPosition { league_id: 1, position: "mid".to_string(), team_max: 1, squad_max: 1 }];
    let e = check_active_picks(vec![VecUuid { inner: vec![1, 2] }], &one, &Some(pc.clone()), &Some(tc.clone()), limits).unwrap_err();
    assert_eq!(e.to_string(), "Invalid team: Team cannot have more than 1 players for position mid");
    assert!(check_active_picks(vec![VecUuid { inner: vec![1, 2] }], &one, &Some(pc), &Some(tc), vec![]).unwrap());
}

#[test]
fn due_turn_waits_for_caches_then_picks() {
    let l = league(1);
    let td = TeamDraft { team_draft_id: 5, draft_id: 6, fantasy_team_id: 7 };
    let choice = DraftChoice { draft_choice_id: 8, team_draft_id: 5, timespan: new_dieseltimespan(ts(0), ts(10)) };
    let period = new_dieseltimespan(ts(0), ts(1000));
    let limits = PositionMap::new();
    let o = handle_due_turn(&td, choice, period, None, &vec![3], &vec![], &l, &limits, &None, &Some(HashMap::new()));
    assert!(matches!(o, TurnOutcome::CachesNotReady));
    let o = handle_due_turn(&td, choice, period, None, &vec![3], &vec![], &l, &limits, &Some(HashMap::new()), &Some(HashMap::new()));
    match o {
        TurnOutcome::Picked { pick, active, announce } => {
            assert_eq!((pick.player_id, pick.fantasy_team_id, pick.timespan), (3, 7, period));
            assert!(active.is_none());
            assert_eq!((announce.pick_id, announce.draft_id, announce.fantasy_team_id), (pick.pick_id, Some(6), Some(7)));
        }
        _ => panic!("pick expected"),
    }
    let o = handle_due_turn(&td, choice, period, None, &vec![], &vec![], &l, &limits, &Some(HashMap::new()), &Some(HashMap::new()));
    assert!(matches!(o, TurnOutcome::NoPick(_)));
}
