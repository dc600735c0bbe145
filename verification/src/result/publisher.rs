//! How the results server's items are matched against subscriptions.
use vstd::prelude::*;
use std::collections::HashMap;
use crate::ws_server::{Publishable, Subscription, passes, subscribed, lemma_receives_only_matching, matching};
use crate::result::subscriptions::SubType;
use crate::result::types::teams::ApiTeamWithPlayersHierarchy;

verus! {

/// Teams are selected by their identifier; competition subscriptions pass them all.
impl Publishable<SubType> for ApiTeamWithPlayersHierarchy {
    open spec fn spec_subscription_key(&self, sub_type: SubType, id_map: Option<Map<u128, u128>>) -> Option<u128> {
        match sub_type {
            SubType::Team => Some(self.team_id),
            SubType::Competition => None,
        }
    }

    open spec fn spec_key_known(&self, sub_type: SubType, id_map: Option<Map<u128, u128>>) -> bool {
        true
    }

    fn message_type() -> (r: &'static str)
        ensures
            r@ == "team_and_players"@,
    {
        "team_and_players"
    }

    fn subscription_key(&self, sub_type: &SubType, id_map: &Option<HashMap<u128, u128>>) -> (r: Option<u128>) {
        match sub_type {
            SubType::Team => Some(self.team_id),
            SubType::Competition => None,
        }
    }
}

/// A team reaches a team subscription exactly when it names the team;
/// competition subscriptions pass every team.
pub proof fn lemma_team_selection(t: ApiTeamWithPlayersHierarchy, sub: Subscription, id_map: Option<Map<u128, u128>>)
    ensures
        passes(t, sub, SubType::Team, id_map) <==> sub.ids@.contains(t.team_id),
        passes(t, sub, SubType::Competition, id_map),
{
}

/// Publishing teams to a subscription that is not to everything delivers,
/// in order, exactly the teams it names when it is a team subscription.
pub proof fn lemma_teams_delivered(items: Seq<ApiTeamWithPlayersHierarchy>, sub: Subscription, id_map: Option<Map<u128, u128>>)
    requires
        !sub.all,
    ensures
        subscribed(items, sub, SubType::Team, id_map) == items.filter(|t: ApiTeamWithPlayersHierarchy| sub.ids@.contains(t.team_id)),
{
    lemma_receives_only_matching(items, sub, SubType::Team, id_map);
    assert(matching::<SubType, ApiTeamWithPlayersHierarchy>(sub, SubType::Team, id_map)
        =~= (|t: ApiTeamWithPlayersHierarchy| sub.ids@.contains(t.team_id)));
}

} // verus!
