//! How the leaderboard server's items are matched against subscriptions.
use vstd::prelude::*;
use std::collections::HashMap;
use crate::ws_server::{Publishable, Subscription, passes, subscribed, lemma_receives_only_matching, matching};
use crate::leaderboard::subscriptions::SubType;
use crate::leaderboard::types::{Leaderboard, ApiLeaderboard, Stat, ApiStat};

verus! {

broadcast use vstd::std_specs::hash::group_hash_axioms;

/// Leaderboards are selected by their league or by their own identifier.
impl Publishable<SubType> for Leaderboard {
    open spec fn spec_subscription_key(&self, sub_type: SubType, id_map: Option<Map<u128, u128>>) -> Option<u128> {
        match sub_type {
            SubType::League => Some(self.league_id),
            SubType::Leaderboard => Some(self.leaderboard_id),
        }
    }

    open spec fn spec_key_known(&self, sub_type: SubType, id_map: Option<Map<u128, u128>>) -> bool {
        true
    }

    fn message_type() -> (r: &'static str)
        ensures
            r@ == "leaderboard"@,
    {
        "leaderboard"
    }

    fn subscription_key(&self, sub_type: &SubType, id_map: &Option<HashMap<u128, u128>>) -> (r: Option<u128>) {
        match sub_type {
            SubType::League => Some(self.league_id),
            SubType::Leaderboard => Some(self.leaderboard_id),
        }
    }
}

/// Leaderboards are selected by their league or by their own identifier.
impl Publishable<SubType> for ApiLeaderboard {
    open spec fn spec_subscription_key(&self, sub_type: SubType, id_map: Option<Map<u128, u128>>) -> Option<u128> {
        match sub_type {
            SubType::League => Some(self.league_id),
            SubType::Leaderboard => Some(self.leaderboard_id),
        }
    }

    open spec fn spec_key_known(&self, sub_type: SubType, id_map: Option<Map<u128, u128>>) -> bool {
        true
    }

    fn message_type() -> (r: &'static str)
        ensures
            r@ == "leaderboard_detailed"@,
    {
        "leaderboard_detailed"
    }

    fn subscription_key(&self, sub_type: &SubType, id_map: &Option<HashMap<u128, u128>>) -> (r: Option<u128>) {
        match sub_type {
            SubType::League => Some(self.league_id),
            SubType::Leaderboard => Some(self.leaderboard_id),
        }
    }
}

/// Stats are selected by their leaderboard; for league subscriptions the
/// league is looked up in `id_map` under the stat's leaderboard.
impl Publishable<SubType> for Stat {
    open spec fn spec_subscription_key(&self, sub_type: SubType, id_map: Option<Map<u128, u128>>) -> Option<u128> {
        match sub_type {
            SubType::League => Some(id_map.unwrap()[self.leaderboard_id]),
            SubType::Leaderboard => Some(self.leaderboard_id),
        }
    }

    open spec fn spec_key_known(&self, sub_type: SubType, id_map: Option<Map<u128, u128>>) -> bool {
        match sub_type {
            SubType::League => id_map is Some && id_map.unwrap().contains_key(self.leaderboard_id),
            SubType::Leaderboard => true,
        }
    }

    fn message_type() -> (r: &'static str)
        ensures
            r@ == "stat"@,
    {
        "stat"
    }

    fn subscription_key(&self, sub_type: &SubType, id_map: &Option<HashMap<u128, u128>>) -> (r: Option<u128>) {
        match sub_type {
            SubType::League => {
                let m = id_map.as_ref().unwrap();
                Some(*m.get(&self.leaderboard_id).unwrap())
            },
            SubType::Leaderboard => Some(self.leaderboard_id),
        }
    }
}

/// Stats are selected by their league or by their leaderboard.
impl Publishable<SubType> for ApiStat {
    open spec fn spec_subscription_key(&self, sub_type: SubType, id_map: Option<Map<u128, u128>>) -> Option<u128> {
        match sub_type {
            SubType::League => Some(self.league_id),
            SubType::Leaderboard => Some(self.leaderboard_id),
        }
    }

    open spec fn spec_key_known(&self, sub_type: SubType, id_map: Option<Map<u128, u128>>) -> bool {
        true
    }

    fn message_type() -> (r: &'static str)
        ensures
            r@ == "stat"@,
    {
        "stat"
    }

    fn subscription_key(&self, sub_type: &SubType, id_map: &Option<HashMap<u128, u128>>) -> (r: Option<u128>) {
        match sub_type {
            SubType::League => Some(self.league_id),
            SubType::Leaderboard => Some(self.leaderboard_id),
        }
    }
}

/// A leaderboard reaches a league subscription exactly when it names the
/// leaderboard's league, and a leaderboard subscription exactly when it
/// names the leaderboard.
pub proof fn lemma_leaderboard_selection(l: Leaderboard, a: ApiLeaderboard, sub: Subscription, id_map: Option<Map<u128, u128>>)
    ensures
        passes(l, sub, SubType::League, id_map) <==> sub.ids@.contains(l.league_id),
        passes(l, sub, SubType::Leaderboard, id_map) <==> sub.ids@.contains(l.leaderboard_id),
        passes(a, sub, SubType::League, id_map) <==> sub.ids@.contains(a.league_id),
        passes(a, sub, SubType::Leaderboard, id_map) <==> sub.ids@.contains(a.leaderboard_id),
{
}

/// A stat reaches a leaderboard subscription exactly when it names the
/// stat's leaderboard, and a league subscription exactly when it names the
/// league: the stat's own for a client stat, and for a stored stat the one
/// `id_map` gives for its leaderboard.
pub proof fn lemma_stat_selection(s: Stat, a: ApiStat, sub: Subscription, id_map: Option<Map<u128, u128>>)
    ensures
        passes(s, sub, SubType::Leaderboard, id_map) <==> sub.ids@.contains(s.leaderboard_id),
        s.spec_key_known(SubType::League, id_map) <==> (id_map is Some && id_map.unwrap().contains_key(s.leaderboard_id)),
        s.spec_key_known(SubType::League, id_map) ==> (passes(s, sub, SubType::League, id_map)
            <==> sub.ids@.contains(id_map.unwrap()[s.leaderboard_id])),
        passes(a, sub, SubType::League, id_map) <==> sub.ids@.contains(a.league_id),
        passes(a, sub, SubType::Leaderboard, id_map) <==> sub.ids@.contains(a.leaderboard_id),
{
}

/// Publishing leaderboards to a subscription that is not to everything
/// delivers, in order, exactly the leaderboards whose league it names when
/// it is a league subscription, and exactly those it names when it is a
/// leaderboard subscription.
pub proof fn lemma_leaderboards_delivered(items: Seq<Leaderboard>, sub: Subscription, id_map: Option<Map<u128, u128>>)
    requires
        !sub.all,
    ensures
        subscribed(items, sub, SubType::League, id_map) == items.filter(|l: Leaderboard| sub.ids@.contains(l.league_id)),
        subscribed(items, sub, SubType::Leaderboard, id_map) == items.filter(|l: Leaderboard| sub.ids@.contains(l.leaderboard_id)),
{
    lemma_receives_only_matching(items, sub, SubType::League, id_map);
    lemma_receives_only_matching(items, sub, SubType::Leaderboard, id_map);
    assert(matching::<SubType, Leaderboard>(sub, SubType::League, id_map) =~= (|l: Leaderboard| sub.ids@.contains(l.league_id)));
    assert(matching::<SubType, Leaderboard>(sub, SubType::Leaderboard, id_map) =~= (|l: Leaderboard| sub.ids@.contains(l.leaderboard_id)));
}

/// Publishing stats to a subscription that is not to everything delivers,
/// in order, exactly the stats of the leaderboards it names when it is a
/// leaderboard subscription, and, when it is a league subscription, exactly
/// the stats whose leaderboard `id_map` places in a league it names.
pub proof fn lemma_stats_delivered(items: Seq<Stat>, sub: Subscription, league_of: Map<u128, u128>)
    requires
        !sub.all,
    ensures
        subscribed(items, sub, SubType::Leaderboard, Some(league_of)) == items.filter(|s: Stat| sub.ids@.contains(s.leaderboard_id)),
        subscribed(items, sub, SubType::League, Some(league_of)) == items.filter(|s: Stat| sub.ids@.contains(league_of[s.leaderboard_id])),
{
    lemma_receives_only_matching(items, sub, SubType::League, Some(league_of));
    lemma_receives_only_matching(items, sub, SubType::Leaderboard, Some(league_of));
    assert(matching::<SubType, Stat>(sub, SubType::League, Some(league_of)) =~= (|s: Stat| sub.ids@.contains(league_of[s.leaderboard_id])));
    assert(matching::<SubType, Stat>(sub, SubType::Leaderboard, Some(league_of)) =~= (|s: Stat| sub.ids@.contains(s.leaderboard_id)));
}

} // verus!
