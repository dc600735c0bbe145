//! How the fantasy server's items are matched against subscriptions.
use vstd::prelude::*;
use crate::ws_server::{Publishable, Subscription, passes, subscribed, lemma_receives_only_matching, matching};
use std::collections::HashMap;
use crate::fantasy::subscriptions::SubType;
use crate::fantasy::types::leagues::{League, ApiLeague};
use crate::fantasy::types::drafts::ApiDraft;
use crate::fantasy::types::users::ExternalUser;

verus! {

/// Leagues are selected by their identifier; other subscriptions pass them all.
impl Publishable<SubType> for League {
    open spec fn spec_subscription_key(&self, sub_type: SubType, id_map: Option<Map<u128, u128>>) -> Option<u128> {
        match sub_type {
            SubType::League => Some(self.league_id),
            _ => None,
        }
    }

    open spec fn spec_key_known(&self, sub_type: SubType, id_map: Option<Map<u128, u128>>) -> bool {
        true
    }

    fn message_type() -> (r: &'static str)
        ensures
            r@ == "league"@,
    {
        "league"
    }

    fn subscription_key(&self, sub_type: &SubType, id_map: &Option<HashMap<u128, u128>>) -> (r: Option<u128>) {
        match sub_type {
            SubType::League => Some(self.league_id),
            _ => None,
        }
    }
}

/// Leagues are selected by their identifier; other subscriptions pass them all.
impl Publishable<SubType> for ApiLeague {
    open spec fn spec_subscription_key(&self, sub_type: SubType, id_map: Option<Map<u128, u128>>) -> Option<u128> {
        match sub_type {
            SubType::League => Some(self.league_id),
            _ => None,
        }
    }

    open spec fn spec_key_known(&self, sub_type: SubType, id_map: Option<Map<u128, u128>>) -> bool {
        true
    }

    fn message_type() -> (r: &'static str)
        ensures
            r@ == "league"@,
    {
        "league"
    }

    fn subscription_key(&self, sub_type: &SubType, id_map: &Option<HashMap<u128, u128>>) -> (r: Option<u128>) {
        match sub_type {
            SubType::League => Some(self.league_id),
            _ => None,
        }
    }
}

/// Drafts are selected by their league for league subscriptions and by their
/// own identifier for draft subscriptions; user subscriptions pass them all.
impl Publishable<SubType> for ApiDraft {
    open spec fn spec_subscription_key(&self, sub_type: SubType, id_map: Option<Map<u128, u128>>) -> Option<u128> {
        match sub_type {
            SubType::League => Some(self.league_id),
            SubType::Draft => Some(self.draft_id),
            SubType::User => None,
        }
    }

    open spec fn spec_key_known(&self, sub_type: SubType, id_map: Option<Map<u128, u128>>) -> bool {
        true
    }

    fn message_type() -> (r: &'static str)
        ensures
            r@ == "draft"@,
    {
        "draft"
    }

    fn subscription_key(&self, sub_type: &SubType, id_map: &Option<HashMap<u128, u128>>) -> (r: Option<u128>) {
        match sub_type {
            SubType::League => Some(self.league_id),
            SubType::Draft => Some(self.draft_id),
            SubType::User => None,
        }
    }
}

/// Users are selected by their identifier; other subscriptions pass them all.
impl Publishable<SubType> for ExternalUser {
    open spec fn spec_subscription_key(&self, sub_type: SubType, id_map: Option<Map<u128, u128>>) -> Option<u128> {
        match sub_type {
            SubType::User => Some(self.external_user_id),
            _ => None,
        }
    }

    open spec fn spec_key_known(&self, sub_type: SubType, id_map: Option<Map<u128, u128>>) -> bool {
        true
    }

    fn message_type() -> (r: &'static str)
        ensures
            r@ == "user"@,
    {
        "user"
    }

    fn subscription_key(&self, sub_type: &SubType, id_map: &Option<HashMap<u128, u128>>) -> (r: Option<u128>) {
        match sub_type {
            SubType::User => Some(self.external_user_id),
            _ => None,
        }
    }
}

/// A league reaches a client's league subscription exactly when the
/// subscription names the league; draft and user subscriptions pass every
/// league.
pub proof fn lemma_league_selection(l: League, a: ApiLeague, sub: Subscription, id_map: Option<Map<u128, u128>>)
    ensures
        passes(l, sub, SubType::League, id_map) <==> sub.ids@.contains(l.league_id),
        passes(l, sub, SubType::Draft, id_map),
        passes(l, sub, SubType::User, id_map),
        passes(a, sub, SubType::League, id_map) <==> sub.ids@.contains(a.league_id),
        passes(a, sub, SubType::Draft, id_map),
        passes(a, sub, SubType::User, id_map),
{
}

/// A draft reaches a league subscription exactly when it names the draft's
/// league, and a draft subscription exactly when it names the draft; user
/// subscriptions pass every draft.
pub proof fn lemma_draft_selection(d: ApiDraft, sub: Subscription, id_map: Option<Map<u128, u128>>)
    ensures
        passes(d, sub, SubType::League, id_map) <==> sub.ids@.contains(d.league_id),
        passes(d, sub, SubType::Draft, id_map) <==> sub.ids@.contains(d.draft_id),
        passes(d, sub, SubType::User, id_map),
{
}

/// A user reaches a user subscription exactly when it names the user;
/// league and draft subscriptions pass every user.
pub proof fn lemma_user_selection(u: ExternalUser, sub: Subscription, id_map: Option<Map<u128, u128>>)
    ensures
        passes(u, sub, SubType::User, id_map) <==> sub.ids@.contains(u.external_user_id),
        passes(u, sub, SubType::League, id_map),
        passes(u, sub, SubType::Draft, id_map),
{
}

/// Publishing leagues to a subscription that is not to everything delivers,
/// in order, exactly the leagues it names when it is a league subscription,
/// and every league when it is a draft or user subscription.
pub proof fn lemma_leagues_delivered(items: Seq<League>, sub: Subscription, id_map: Option<Map<u128, u128>>)
    requires
        !sub.all,
    ensures
        subscribed(items, sub, SubType::League, id_map) == items.filter(|l: League| sub.ids@.contains(l.league_id)),
        subscribed(items, sub, SubType::Draft, id_map) == items,
        subscribed(items, sub, SubType::User, id_map) == items,
{
    lemma_receives_only_matching(items, sub, SubType::League, id_map);
    lemma_receives_only_matching(items, sub, SubType::Draft, id_map);
    lemma_receives_only_matching(items, sub, SubType::User, id_map);
    assert(matching::<SubType, League>(sub, SubType::League, id_map) =~= (|l: League| sub.ids@.contains(l.league_id)));
    lemma_all_pass_filter(items, matching::<SubType, League>(sub, SubType::Draft, id_map));
    lemma_all_pass_filter(items, matching::<SubType, League>(sub, SubType::User, id_map));
}

/// Keeping the items that pass a test that every item passes keeps them all.
proof fn lemma_all_pass_filter<T>(items: Seq<T>, f: spec_fn(T) -> bool)
    requires
        forall|i: int| 0 <= i < items.len() ==> f(#[trigger] items[i]),
    ensures
        items.filter(f) == items,
    decreases items.len(),
{
    reveal(Seq::filter);
    if items.len() > 0 {
        lemma_all_pass_filter(items.drop_last(), f);
        assert(f(items[items.len() - 1]));
        assert(items.drop_last().push(items.last()) =~= items);
    } else {
        assert(items =~= Seq::<T>::empty());
    }
}

/// Publishing drafts to a subscription that is not to everything delivers,
/// in order, exactly the drafts of the leagues it names when it is a league
/// subscription, exactly the drafts it names when it is a draft
/// subscription, and every draft when it is a user subscription.
pub proof fn lemma_drafts_delivered(items: Seq<ApiDraft>, sub: Subscription, id_map: Option<Map<u128, u128>>)
    requires
        !sub.all,
    ensures
        subscribed(items, sub, SubType::League, id_map) == items.filter(|d: ApiDraft| sub.ids@.contains(d.league_id)),
        subscribed(items, sub, SubType::Draft, id_map) == items.filter(|d: ApiDraft| sub.ids@.contains(d.draft_id)),
        subscribed(items, sub, SubType::User, id_map) == items,
{
    lemma_receives_only_matching(items, sub, SubType::League, id_map);
    lemma_receives_only_matching(items, sub, SubType::Draft, id_map);
    lemma_receives_only_matching(items, sub, SubType::User, id_map);
    assert(matching::<SubType, ApiDraft>(sub, SubType::League, id_map) =~= (|d: ApiDraft| sub.ids@.contains(d.league_id)));
    assert(matching::<SubType, ApiDraft>(sub, SubType::Draft, id_map) =~= (|d: ApiDraft| sub.ids@.contains(d.draft_id)));
    lemma_all_pass_filter(items, matching::<SubType, ApiDraft>(sub, SubType::User, id_map));
}

} // verus!
