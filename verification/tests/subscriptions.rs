use std::collections::HashMap;
use fantasy_sport::ws_server::{Subscription, apply_sub_request, subscribed_publishables, partial_subscribed_publishables, this_should_never_happen, WSMsgOut, Publishable};
use fantasy_sport::fantasy::subscriptions as fsubs;
use fantasy_sport::fantasy::subscriptions::{SubType as FSubType, ApiSubExternalUsers, ApiSubLeagues, ApiSubDrafts};
use fantasy_sport::fantasy::messages::{SubUser, SubLeague, SubDraft};
use fantasy_sport::fantasy::types::leagues::League;
use fantasy_sport::fantasy::types::drafts::ApiDraft;
use fantasy_sport::fantasy::types::users::ExternalUser;
use fantasy_sport::leaderboard::subscriptions as lsubs;
use fantasy_sport::leaderboard::subscriptions::SubType as LSubType;
use fantasy_sport::leaderboard::types::Stat;
use fantasy_sport::result::subscriptions as rsubs;
use fantasy_sport::result::subscriptions::{MySubHandler, SubType as RSubType};
use fantasy_sport::result::messages::{SubTeam, SubCompetition};
use fantasy_sport::timespan::Timestamp;

fn sorted(mut v: Vec<u128>) -> Vec<u128> {
    v.sort();
    v
}

#[test]
fn subscribe_and_unsubscribe() {
    let mut s = Subscription::new();
    assert!(!s.all);
    s.subscribe(&vec![1, 2, 3, 2]);
    assert!(s.contains(1) && s.contains(2) && s.contains(3));
    s.unsubscribe(&vec![2, 9]);
    assert!(!s.contains(2));
    assert_eq!(sorted(s.listed_ids()), vec![1, 3]);
    s.set_all(true);
    assert!(s.all);
    assert_eq!(sorted(s.listed_ids()), vec![1, 3]);
}

#[test]
fn subscribe_then_unsubscribe_removes_them() {
    let mut s = Subscription::new();
    s.subscribe(&vec![1]);
    s.subscribe(&vec![4, 5]);
    s.unsubscribe(&vec![4, 5]);
    assert_eq!(sorted(s.listed_ids()), vec![1]);
}

#[test]
fn request_order_is_toggle_add_remove() {
    let mut s = Subscription::new();
    let filter = apply_sub_request(&mut s, None, &Some(vec![1, 2]), &Some(vec![2]));
    assert_eq!(filter, Some(vec![1]));
    // Adding and removing the same identifier in one request removes it.
    let filter = apply_sub_request(&mut s, Some(false), &Some(vec![3]), &Some(vec![3]));
    assert_eq!(filter, Some(vec![1]));
    let filter = apply_sub_request(&mut s, Some(true), &None, &None);
    assert_eq!(filter, None);
    assert!(s.all);
    let filter = apply_sub_request(&mut s, Some(false), &None, &Some(vec![1]));
    assert_eq!(filter, Some(vec![]));
}

fn league(id: u128) -> League {
    League {
        league_id: id,
        name: format!("league {}", id),
        team_size: 5,
        squad_size: 7,
        competition_id: 1,
        meta: "{}".to_string(),
        max_squad_players_same_team: 3,
        max_squad_players_same_position: 3,
        max_team_players_same_team: 2,
        max_team_players_same_position: 2,
    }
}

#[test]
fn leagues_reach_their_subscribers() {
    let leagues = vec![league(1), league(2), league(3)];
    let mut subs = fsubs::Subscriptions::new();
    fsubs::sub_to_leagues(&mut subs, &vec![3, 1]);
    let got: Vec<u128> = fsubs::subscribed_leagues(&subs, &leagues).iter().map(|l| l.league_id).collect();
    assert_eq!(got, vec![1, 3]);
    fsubs::unsub_to_leagues(&mut subs, &vec![1]);
    let got: Vec<u128> = fsubs::subscribed_leagues(&subs, &leagues).iter().map(|l| l.league_id).collect();
    assert_eq!(got, vec![3]);
    fsubs::sub_to_all_leagues(&mut subs, true);
    assert_eq!(fsubs::subscribed_leagues(&subs, &leagues).len(), 3);
    // A draft subscription does not select leagues: all of them pass.
    fsubs::sub_to_drafts(&mut subs, &vec![42]);
    assert_eq!(fsubs::subscribed_drafts(&subs, &leagues).len(), 3);
    assert_eq!(<League as Publishable<FSubType>>::message_type(), "league");
}

#[test]
fn drafts_selected_by_league_or_draft() {
    let drafts = vec![
        ApiDraft { league_id: 1, draft_id: 10, period_id: 0, meta: "{}".to_string(), team_drafts: None },
        ApiDraft { league_id: 2, draft_id: 20, period_id: 0, meta: "{}".to_string(), team_drafts: None },
    ];
    let mut subs = fsubs::Subscriptions::new();
    fsubs::sub_to_drafts(&mut subs, &vec![20]);
    let got: Vec<u128> = fsubs::subscribed_drafts(&subs, &drafts).iter().map(|d| d.draft_id).collect();
    assert_eq!(got, vec![20]);
    fsubs::sub_to_leagues(&mut subs, &vec![1]);
    let got: Vec<u128> = fsubs::subscribed_leagues(&subs, &drafts).iter().map(|d| d.draft_id).collect();
    assert_eq!(got, vec![10]);
    fsubs::unsub_to_drafts(&mut subs, &vec![20]);
    assert!(fsubs::subscribed_drafts(&subs, &drafts).is_empty());
    fsubs::sub_to_all_drafts(&mut subs, true);
    assert_eq!(fsubs::subscribed_drafts(&subs, &drafts).len(), 2);
}

#[test]
fn users_only_for_user_subscriptions() {
    let users = vec![ExternalUser { external_user_id: 5, username: "a".to_string(), meta: "{}".to_string() }];
    let mut subs = fsubs::Subscriptions::new();
    let none: Vec<&ExternalUser> = subscribed_publishables(&users, subs.get(&FSubType::User), &FSubType::User, &None);
    assert!(none.is_empty());
    fsubs::sub_to_external_users(&mut subs, true);
    let all = subscribed_publishables(&users, subs.get(&FSubType::User), &FSubType::User, &None);
    assert_eq!(all.len(), 1);
    let req = ApiSubExternalUsers { toggle: true };
    let msg = SubUser { toggle: req.toggle };
    assert!(msg.toggle);
}

#[test]
fn fantasy_requests_apply_to_one_kind() {
    let mut subs = fsubs::Subscriptions::new();
    let req = ApiSubLeagues { sub_league_ids: Some(vec![7]), unsub_league_ids: None, all: None };
    let filter = subs.apply(FSubType::League, req.all, &req.sub_league_ids, &req.unsub_league_ids);
    assert_eq!(filter, Some(vec![7]));
    assert!(subs.drafts.ids.is_empty());
    let req = ApiSubDrafts { sub_draft_ids: None, unsub_draft_ids: None, all: Some(true) };
    assert_eq!(subs.apply(FSubType::Draft, req.all, &req.sub_draft_ids, &req.unsub_draft_ids), None);
    let msg = SubLeague { sub_league_ids: None, unsub_league_ids: Some(vec![7]), all: None };
    assert_eq!(subs.apply(FSubType::League, msg.all, &msg.sub_league_ids, &msg.unsub_league_ids), Some(vec![]));
    let msg = SubDraft { sub_draft_ids: Some(vec![1]), unsub_draft_ids: None, all: Some(false) };
    assert_eq!(subs.apply(FSubType::Draft, msg.all, &msg.sub_draft_ids, &msg.unsub_draft_ids), Some(vec![1]));
}

fn stat(leaderboard_id: u128, player_id: u128) -> Stat {
    Stat { player_id, leaderboard_id, timestamp: Timestamp::new(0, 0), points: 0x3f80_0000, meta: "{}".to_string() }
}

#[test]
fn stats_found_through_the_league_map() {
    let stats = vec![stat(1, 10), stat(2, 20), stat(1, 30)];
    let mut subs = lsubs::Subscriptions::new();
    lsubs::sub_to_leagues(&mut subs, &vec![100]);
    let mut id_map = HashMap::new();
    id_map.insert(1u128, 100u128);
    id_map.insert(2u128, 200u128);
    let got: Vec<u128> = partial_subscribed_publishables(&stats, subs.get(&LSubType::League), &LSubType::League, &Some(id_map))
        .iter().map(|s| s.player_id).collect();
    assert_eq!(got, vec![10, 30]);
    lsubs::sub_to_leaderboards(&mut subs, &vec![2]);
    let got: Vec<u128> = subscribed_publishables(&stats, subs.get(&LSubType::Leaderboard), &LSubType::Leaderboard, &None)
        .iter().map(|s| s.player_id).collect();
    assert_eq!(got, vec![20]);
    lsubs::unsub_to_leaderboards(&mut subs, &vec![2]);
    lsubs::unsub_to_leagues(&mut subs, &vec![100]);
    lsubs::sub_to_all_leaderboards(&mut subs, true);
    lsubs::sub_to_all_leagues(&mut subs, false);
    assert!(subs.leaderboards.all && !subs.leagues.all);
    assert_eq!(subs.apply(LSubType::League, None, &None, &None), Some(vec![]));
}

#[test]
fn result_subscriptions() {
    let mut subs = MySubHandler::new();
    assert!(!subs.teams.all && !subs.competitions.all && !subs.players);
    rsubs::sub_to_competitions(&mut subs, &vec![4]);
    assert!(subs.get(&RSubType::Competition).contains(4));
    // Teams are loaded by the competition switch, which is still off.
    assert_eq!(subs.apply_sub_team(&SubTeam { toggle: true }), false);
    assert!(subs.teams.all);
    // A request to stop leaves the team subscription on.
    subs.apply_sub_team(&SubTeam { toggle: false });
    assert!(subs.teams.all);
    let req = SubCompetition { sub_competition_ids: None, unsub_competition_ids: None, all: Some(true) };
    assert_eq!(subs.apply(RSubType::Competition, req.all, &req.sub_competition_ids, &req.unsub_competition_ids), None);
    assert_eq!(subs.apply_sub_team(&SubTeam { toggle: false }), true);
    rsubs::sub_to_teams(&mut subs, false);
    rsubs::sub_to_players(&mut subs, true);
    assert!(!subs.teams.all && subs.players);
}

#[test]
fn everything_passes_unfiltered() {
    let v = vec![3, 1, 2];
    let refs = this_should_never_happen(&v);
    assert_eq!(refs, vec![&3, &1, &2]);
}

#[test]
fn message_envelopes() {
    let m = WSMsgOut::resp(5, "League", vec![1]);
    assert_eq!((m.message_id, m.mode, m.message_type, m.data), (5, "resp", "League", vec![1]));
    let m = WSMsgOut::error("bad".to_string(), 6);
    assert_eq!((m.message_id, m.mode, m.message_type), (6, "error", "unknown"));
    let a = WSMsgOut::push("draft", 1);
    let b = WSMsgOut::push("draft", 1);
    assert_eq!(a.mode, "push");
    assert_ne!(a.message_id, b.message_id);
    assert_eq!((a.message_id >> 76) & 0xF, 4);
}

#[test]
fn push_carries_what_reaches_the_client() {
    let leagues = vec![league(1), league(2)];
    let mut sub = Subscription::new();
    sub.subscribe(&vec![2]);
    let m = fantasy_sport::ws_server::push_for(&leagues, &sub, &FSubType::League, &None);
    assert_eq!(m.mode, "push");
    assert_eq!(m.message_type, "league");
    assert_eq!(m.data.iter().map(|l| l.league_id).collect::<Vec<_>>(), vec![2]);
}

#[test]
fn same_request_twice_changes_nothing_more() {
    let mut s = Subscription::new();
    s.subscribe(&vec![8]);
    let first = apply_sub_request(&mut s, None, &Some(vec![1, 2]), &Some(vec![8]));
    let second = apply_sub_request(&mut s, None, &Some(vec![1, 2]), &Some(vec![8]));
    assert_eq!(sorted(first.unwrap()), sorted(second.unwrap()));
    assert_eq!(sorted(s.listed_ids()), vec![1, 2]);
}

use fantasy_sport::ws_server::{error_reply_id, reply_for, IncomingMsg, WsReply};

#[test]
fn error_reply_identifiers() {
    // No identifier named: the fresh one.
    assert_eq!(error_reply_id("{\"method\": \"Nope\"}", 7), Some(7));
    // An identifier named: the pattern finds the text up to it, which is no UUID.
    let msg = "{\"message_id\":\"67e55044-10b1-426f-9247-bb680e5fe0c8\",\"method\":\"Nope\"}";
    assert_eq!(error_reply_id(msg, 7), None);
}

#[test]
fn replies_to_client_messages() {
    match reply_for(IncomingMsg::Ping, 1) {
        Some(WsReply::Text(t)) => assert_eq!(t, "{'mode': 'pong'}"),
        _ => panic!("pong expected"),
    }
    match reply_for(IncomingMsg::Other, 2) {
        Some(WsReply::Error(m)) => {
            assert_eq!((m.message_id, m.mode, m.message_type), (2, "error", "unknown"));
            assert_eq!(m.data, "Unexpected message type received");
        }
        _ => panic!("error expected"),
    }
    match reply_for(IncomingMsg::Text { text: "{}".to_string(), handled: Ok("done".to_string()) }, 3) {
        Some(WsReply::Text(t)) => assert_eq!(t, "done"),
        _ => panic!("text expected"),
    }
    match reply_for(IncomingMsg::Text { text: "{}".to_string(), handled: Err("bad".to_string()) }, 4) {
        Some(WsReply::Error(m)) => assert_eq!((m.message_id, m.data.as_str()), (4, "bad")),
        _ => panic!("error expected"),
    }
    let named = "{\"message_id\":\"67e55044-10b1-426f-9247-bb680e5fe0c8\"}".to_string();
    assert!(reply_for(IncomingMsg::Text { text: named, handled: Err("bad".to_string()) }, 5).is_none());
}
