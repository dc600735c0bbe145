//! Drafts, the teams taking part in them, and their choices.
use vstd::prelude::*;
use crate::timespan::DieselTimespan;
use crate::ids::new_v4;
use crate::fantasy::types::fantasy_teams::Pick;

verus! {

/// One draft of a league period. `meta` is free-form JSON text.
#[derive(Debug, Clone)]
pub struct Draft {
    pub draft_id: u128,
    pub period_id: u128,
    pub meta: String,
}

impl Draft {
    /// A draft for `period_id` with a fresh identifier and an empty JSON object
    /// as metadata.
    pub fn new(period_id: u128) -> (d: Draft)
        ensures
            d.period_id == period_id,
            d.meta@ == "{}"@,
            crate::ids::is_v4(d.draft_id),
    {
        let meta = String::from_str("{}");
        let draft_id = new_v4();
        Draft { draft_id, period_id, meta }
    }
}

/// A partial change to a draft's metadata.
#[derive(Debug, Clone)]
pub struct DraftUpdate {
    pub draft_id: u128,
    pub meta: Option<String>,
}

/// A fantasy team's place in a draft.
#[derive(Debug, Clone, Copy, PartialEq, Eq, Structural)]
pub struct TeamDraft {
    pub team_draft_id: u128,
    pub draft_id: u128,
    pub fantasy_team_id: u128,
}

impl TeamDraft {
    /// The place of `fantasy_team_id` in `draft_id`, with a fresh identifier.
    pub fn new(draft_id: u128, fantasy_team_id: u128) -> (t: TeamDraft)
        ensures
            t.draft_id == draft_id,
            t.fantasy_team_id == fantasy_team_id,
            crate::ids::is_v4(t.team_draft_id),
    {
        let team_draft_id = new_v4();
        TeamDraft { team_draft_id, draft_id, fantasy_team_id }
    }

    /// A place with every identifier freshly drawn.
    pub fn test() -> (t: TeamDraft)
        ensures
            crate::ids::is_v4(t.team_draft_id),
            crate::ids::is_v4(t.fantasy_team_id),
            crate::ids::is_v4(t.draft_id),
    {
        TeamDraft { team_draft_id: new_v4(), fantasy_team_id: new_v4(), draft_id: new_v4() }
    }
}

/// One turn of a team in a draft: the team may pick during `timespan`.
#[derive(Debug, Clone, Copy, PartialEq, Eq, Structural)]
pub struct DraftChoice {
    pub draft_choice_id: u128,
    pub team_draft_id: u128,
    pub timespan: DieselTimespan,
}

impl DraftChoice {
    /// A turn for `team_draft_id` during `timespan`, with a fresh identifier.
    pub fn new(team_draft_id: u128, timespan: DieselTimespan) -> (c: DraftChoice)
        ensures
            c.team_draft_id == team_draft_id,
            c.timespan == timespan,
            crate::ids::is_v4(c.draft_choice_id),
    {
        let draft_choice_id = new_v4();
        DraftChoice { draft_choice_id, team_draft_id, timespan }
    }

    /// The stored form of a turn as the clients see it: the fantasy team is dropped.
    pub fn from(other: ApiDraftChoice) -> (c: DraftChoice)
        ensures
            c == (DraftChoice {
                draft_choice_id: other.draft_choice_id,
                team_draft_id: other.team_draft_id,
                timespan: other.timespan,
            }),
    {
        DraftChoice {
            draft_choice_id: other.draft_choice_id,
            team_draft_id: other.team_draft_id,
            timespan: other.timespan,
        }
    }
}

/// A change to when a turn takes place.
#[derive(Debug, Clone, Copy, PartialEq, Eq, Structural)]
pub struct DraftChoiceUpdate {
    pub draft_choice_id: u128,
    pub timespan: Option<DieselTimespan>,
}

/// The players a fantasy team wants, most wanted first.
#[derive(Debug, Clone)]
pub struct DraftQueue {
    pub fantasy_team_id: u128,
    pub player_ids: Vec<u128>,
}

/// A turn as the clients see it, with the fantasy team whose turn it is.
#[derive(Debug, Clone, Copy, PartialEq, Eq, Structural)]
pub struct ApiDraftChoice {
    pub draft_choice_id: u128,
    pub team_draft_id: u128,
    pub timespan: DieselTimespan,
    pub fantasy_team_id: u128,
}

impl ApiDraftChoice {
    /// A turn of `fantasy_team_id` (placed as `team_draft_id`) during
    /// `timespan`, with a fresh identifier.
    pub fn new(fantasy_team_id: u128, team_draft_id: u128, timespan: DieselTimespan) -> (c:
        ApiDraftChoice)
        ensures
            c.fantasy_team_id == fantasy_team_id,
            c.team_draft_id == team_draft_id,
            c.timespan == timespan,
            crate::ids::is_v4(c.draft_choice_id),
    {
        let draft_choice_id = new_v4();
        ApiDraftChoice { fantasy_team_id, draft_choice_id, team_draft_id, timespan }
    }
}

/// A draft with, optionally, its teams.
#[derive(Debug, Clone)]
pub struct ApiDraft {
    pub league_id: u128,
    pub draft_id: u128,
    pub period_id: u128,
    pub meta: String,
    pub team_drafts: Option<Vec<ApiTeamDraft>>,
}

/// A team in a draft with, optionally, its turns and active picks.
#[derive(Debug, Clone)]
pub struct ApiTeamDraft {
    pub team_draft_id: u128,
    pub fantasy_team_id: u128,
    pub name: String,
    pub external_user_id: u128,
    pub meta: String,
    pub draft_choices: Option<Vec<ApiDraftChoice2>>,
    pub active_picks: Option<Vec<ApiPick>>,
}

/// A pick as the clients see it.
#[derive(Debug, Clone, Copy, PartialEq, Eq, Structural)]
pub struct ApiPick {
    pub pick_id: u128,
    pub player_id: u128,
    pub timespan: DieselTimespan,
    pub draft_id: Option<u128>,
    pub fantasy_team_id: Option<u128>,
}

impl ApiPick {
    /// A pick made in `draft_id`, as it is announced to the draft's subscribers.
    pub fn from_pick(pick: Pick, draft_id: u128) -> (p: ApiPick)
        ensures
            p == (ApiPick {
                pick_id: pick.pick_id,
                player_id: pick.player_id,
                timespan: pick.timespan,
                fantasy_team_id: Some(pick.fantasy_team_id),
                draft_id: Some(draft_id),
            }),
    {
        ApiPick {
            pick_id: pick.pick_id,
            player_id: pick.player_id,
            timespan: pick.timespan,
            fantasy_team_id: Some(pick.fantasy_team_id),
            draft_id: Some(draft_id),
        }
    }
}

/// A turn as the clients see it, with the pick made in it, if any.
#[derive(Debug, Clone, Copy, PartialEq, Eq, Structural)]
pub struct ApiDraftChoice2 {
    pub draft_choice_id: u128,
    pub timespan: DieselTimespan,
    pub pick: Option<Pick>,
}

} // verus!
