use std::collections::HashMap;
use fantasy_sport::timespan::{DieselTimespan, TimeBound, Timestamp, new_dieseltimespan};
use fantasy_sport::fantasy::position_map::PositionMap;
use fantasy_sport::fantasy::drafting::{
    VecUuid, verify_teams, position_team_counts, count_positions_and_teams, queue_pick,
    pick_from_queue_or_random, draft_groups, draft_choices, generate_drafts, draft_builder_step,
    draft_handler_step, leagues_to_load, SchedulerStep,
};
use fantasy_sport::fantasy::types::drafts::{DraftChoice, TeamDraft};

fn ts(secs: i64) -> Timestamp {
    Timestamp::new(secs, 0)
}

fn caches() -> (HashMap<u128, String>, HashMap<u128, u128>) {
    let mut positions = HashMap::new();
    let mut teams = HashMap::new();
    for p in 1..=6u128 {
        positions.insert(p, if p % 2 == 0 { "mid".to_string() } else { "carry".to_string() });
        teams.insert(p, if p <= 3 { 100 } else { 200 });
    }
    (positions, teams)
}

fn limits(pairs: &[(&str, i32)]) -> PositionMap {
    let mut m = PositionMap::new();
    for (p, v) in pairs {
        m.insert(p.to_string(), *v);
    }
    m
}

#[test]
fn valid_teams_pass() {
    let (pc, tc) = caches();
    let teams = vec![VecUuid { inner: vec![1, 2, 4] }, VecUuid { inner: vec![5, 6] }];
    assert_eq!(verify_teams(teams, &pc, &tc, &2, &limits(&[("mid", 2)]), &3).unwrap(), true);
}

#[test]
fn oversized_team_is_refused() {
    let (pc, tc) = caches();
    let teams = vec![VecUuid { inner: vec![1, 2, 4, 5] }];
    let e = verify_teams(teams, &pc, &tc, &5, &limits(&[]), &3).unwrap_err();
    assert_eq!(e.description, "Team cannot be larger than 3");
    assert_eq!(e.to_string(), "Invalid team: Team cannot be larger than 3");
}

#[test]
fn too_many_of_a_position_is_refused() {
    let (pc, tc) = caches();
    let teams = vec![VecUuid { inner: vec![2, 4, 6] }];
    let e = verify_teams(teams, &pc, &tc, &5, &limits(&[("mid", 2)]), &5).unwrap_err();
    assert_eq!(e.description, "Team cannot have more than 2 players for position mid");
}

#[test]
fn position_without_limit_allows_ninety_nine() {
    let (pc, tc) = caches();
    let teams = vec![VecUuid { inner: vec![2, 4, 6] }];
    assert!(verify_teams(teams, &pc, &tc, &5, &limits(&[("carry", 0)]), &5).is_ok());
}

#[test]
fn too_many_from_one_team_is_refused() {
    let (pc, tc) = caches();
    let teams = vec![VecUuid { inner: vec![1, 2, 3] }];
    let e = verify_teams(teams, &pc, &tc, &2, &limits(&[]), &5).unwrap_err();
    assert_eq!(e.description, "Team cannot have more than 2 players from same team");
}

#[test]
fn first_invalid_team_is_reported() {
    let (pc, tc) = caches();
    let teams = vec![
        VecUuid { inner: vec![1, 2] },
        VecUuid { inner: vec![1, 2, 3, 4] },
        VecUuid { inner: vec![1, 2, 3] },
    ];
    let e = verify_teams(teams, &pc, &tc, &2, &limits(&[]), &3).unwrap_err();
    assert_eq!(e.description, "Team cannot be larger than 3");
}

#[test]
fn negative_limit_in_message() {
    let (pc, tc) = caches();
    let teams = vec![VecUuid { inner: vec![1] }];
    let e = verify_teams(teams, &pc, &tc, &5, &limits(&[]), &-1).unwrap_err();
    assert_eq!(e.description, "Team cannot be larger than -1");
}

#[test]
fn counts_by_position_and_team() {
    let (pc, tc) = caches();
    let (positions, teams) = count_positions_and_teams(&vec![1, 2, 3, 4, 99], &pc, &tc, 7);
    assert_eq!(positions.get_or(&"carry".to_string(), 0), 2);
    assert_eq!(positions.get_or(&"mid".to_string(), 0), 2);
    assert_eq!(positions.get_or(&"".to_string(), 0), 1);
    assert_eq!(teams.get(&100), Some(&3));
    assert_eq!(teams.get(&200), Some(&1));
    assert_eq!(teams.get(&7), Some(&1));
    let (_, teams2) = position_team_counts(&vec![1, 4], &pc, &tc);
    assert_eq!(teams2.get(&100), Some(&1));
    assert_eq!(teams2.get(&200), Some(&1));
}

#[test]
fn queue_takes_first_allowed_player() {
    let (pc, tc) = caches();
    let valid = vec![3, 4, 5];
    // 1 is gone; team 100 already has three squad players, over its limit of
    // two, so 3 is passed over; 4 is fine.
    let got = queue_pick(&Some(vec![1, 3, 4, 5]), &valid, &vec![1, 2, 3], &pc, &tc, 9, 2, &limits(&[]));
    assert_eq!(got, Some(4));
    // At the limit (not over it) a team is still allowed.
    let got = queue_pick(&Some(vec![3, 4]), &valid, &vec![1, 2], &pc, &tc, 9, 2, &limits(&[]));
    assert_eq!(got, Some(3));
    assert_eq!(queue_pick(&None, &valid, &vec![], &pc, &tc, 9, 2, &limits(&[])), None);
    assert_eq!(queue_pick(&Some(vec![1]), &valid, &vec![], &pc, &tc, 9, 2, &limits(&[])), None);
}

#[test]
fn pick_from_queue_then_random() {
    let (pc, tc) = caches();
    let choice = DraftChoice { draft_choice_id: 11, team_draft_id: 12, timespan: new_dieseltimespan(ts(0), ts(10)) };
    let belongs = DieselTimespan(TimeBound::Included(ts(10)), TimeBound::Unbounded);
    let (pick, active) = pick_from_queue_or_random(
        77, choice, belongs, Some(vec![5]), &vec![5, 6], &vec![], &3, &limits(&[]), true, &pc, &tc,
    ).unwrap();
    assert_eq!(pick.player_id, 5);
    assert_eq!(pick.fantasy_team_id, 77);
    assert_eq!(pick.draft_choice_id, 11);
    assert_eq!(pick.timespan, belongs);
    let active = active.unwrap();
    assert_eq!(active.pick_id, pick.pick_id);
    assert_eq!(active.timespan, belongs);

    let (pick, active) = pick_from_queue_or_random(
        77, choice, belongs, Some(vec![1]), &vec![6], &vec![], &3, &limits(&[]), false, &pc, &tc,
    ).unwrap();
    assert_eq!(pick.player_id, 6);
    assert!(active.is_none());
}

#[test]
fn no_player_left_fails_the_turn() {
    let (pc, tc) = caches();
    let choice = DraftChoice { draft_choice_id: 11, team_draft_id: 12, timespan: new_dieseltimespan(ts(0), ts(10)) };
    let e = pick_from_queue_or_random(
        77, choice, new_dieseltimespan(ts(0), ts(1)), None, &vec![], &vec![], &3, &limits(&[]), false, &pc, &tc,
    ).unwrap_err();
    assert_eq!(e.to_string(), "No valid picks to choose from");
}

#[test]
fn teams_are_dealt_round_robin() {
    let groups = draft_groups(&vec![1, 2, 3, 4, 5, 6, 7], 3);
    assert_eq!(groups, vec![vec![1, 4, 7], vec![2, 5], vec![3, 6]]);
    let groups = draft_groups(&vec![1, 2], 5);
    assert_eq!(groups, vec![vec![1, 2]]);
}

#[test]
fn snake_order_turns() {
    let tds = vec![
        TeamDraft { team_draft_id: 1, draft_id: 9, fantasy_team_id: 10 },
        TeamDraft { team_draft_id: 2, draft_id: 9, fantasy_team_id: 20 },
    ];
    let choices = draft_choices(&tds, 2, ts(1000), 60);
    let order: Vec<u128> = choices.iter().map(|c| c.fantasy_team_id).collect();
    assert_eq!(order, vec![10, 20, 20, 10]);
    assert_eq!(choices[0].timespan, new_dieseltimespan(ts(1000), ts(1060)));
    assert_eq!(choices[3].timespan, new_dieseltimespan(ts(1180), ts(1240)));
    assert_eq!(choices[1].team_draft_id, 2);
}

#[test]
fn drafts_for_a_period() {
    let plans = generate_drafts(5, 2, ts(0), 10, &vec![1, 2, 3], 1);
    assert_eq!(plans.len(), 2);
    assert_eq!(plans[0].draft.period_id, 5);
    assert_eq!(plans[0].draft.meta, "{}");
    let teams0: Vec<u128> = plans[0].team_drafts.iter().map(|t| t.fantasy_team_id).collect();
    let teams1: Vec<u128> = plans[1].team_drafts.iter().map(|t| t.fantasy_team_id).collect();
    assert_eq!(teams0, vec![1, 3]);
    assert_eq!(teams1, vec![2]);
    assert!(plans[0].team_drafts.iter().all(|t| t.draft_id == plans[0].draft.draft_id));
    assert_eq!(plans[0].choices.len(), 2);
    assert_eq!(plans[1].choices.len(), 1);
}

#[test]
fn builder_handles_passed_lockdowns() {
    let step = draft_builder_step(&vec![ts(1), ts(5), ts(20)], ts(10));
    assert_eq!(step, SchedulerStep { due: 2, wake_at: Some(ts(20)) });
    let step = draft_builder_step(&vec![ts(1)], ts(10));
    assert_eq!(step, SchedulerStep { due: 1, wake_at: None });
    let step = draft_builder_step(&vec![ts(10)], ts(10));
    assert_eq!(step, SchedulerStep { due: 0, wake_at: Some(ts(10)) });
}

#[test]
fn handler_picks_for_ended_turns() {
    let turns = vec![new_dieseltimespan(ts(0), ts(5)), new_dieseltimespan(ts(5), ts(15))];
    let step = draft_handler_step(&turns, ts(6));
    assert_eq!(step, SchedulerStep { due: 1, wake_at: Some(ts(15)) });
    assert_eq!(draft_handler_step(&vec![], ts(6)), SchedulerStep { due: 0, wake_at: None });
}

#[test]
fn leagues_loaded_once_per_run() {
    assert_eq!(leagues_to_load(&vec![1, 1, 2, 2, 1]), vec![1, 2, 1]);
    assert_eq!(leagues_to_load(&vec![]), Vec::<u128>::new());
}
