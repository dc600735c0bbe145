//! What each client of the fantasy server is subscribed to, and the requests
//! that change it.
use vstd::prelude::*;
use crate::ws_server::{Subscription, Publishable, apply_sub_request, subscribed_publishables};

verus! {

/// The kinds of items a client can subscribe to.
#[derive(Debug, Clone, Copy, PartialEq, Eq, Structural, Hash)]
pub enum SubType {
    League,
    Draft,
    User,
}

/// One client's subscriptions, one per kind of item.
#[derive(Debug)]
pub struct Subscriptions {
    pub leagues: Subscription,
    pub drafts: Subscription,
    pub external_users: Subscription,
}

impl Subscriptions {
    /// The subscription of the given kind.
    pub open spec fn spec_get(&self, sub_type: SubType) -> Subscription {
        match sub_type {
            SubType::League => self.leagues,
            SubType::Draft => self.drafts,
            SubType::User => self.external_users,
        }
    }

    /// Subscribed to nothing of any kind.
    pub fn new() -> (s: Subscriptions)
        ensures
            forall|t: SubType| (#[trigger] s.spec_get(t)).ids@ == Set::<u128>::empty() && !s.spec_get(t).all,
    {
        Subscriptions {
            leagues: Subscription::new(),
            drafts: Subscription::new(),
            external_users: Subscription::new(),
        }
    }

    /// The subscription of the given kind.
    pub fn get(&self, sub_type: &SubType) -> (s: &Subscription)
        ensures
            *s == self.spec_get(*sub_type),
    {
        match sub_type {
            SubType::League => &self.leagues,
            SubType::Draft => &self.drafts,
            SubType::User => &self.external_users,
        }
    }

    /// Applies a subscription request to the subscription of one kind (see
    /// `apply_sub_request`) and leaves the others alone. Returns what the
    /// reply is loaded for: `None` for everything, otherwise the identifiers.
    pub fn apply(
        &mut self,
        sub_type: SubType,
        all: Option<bool>,
        sub_ids: &Option<Vec<u128>>,
        unsub_ids: &Option<Vec<u128>>,
    ) -> (filter: Option<Vec<u128>>)
        ensures
            forall|t: SubType| t != sub_type ==> #[trigger] final(self).spec_get(t) == old(self).spec_get(t),
            final(self).spec_get(sub_type).all == (match all {
                Some(t) => t,
                None => old(self).spec_get(sub_type).all,
            }),
            final(self).spec_get(sub_type).ids@ == old(self).spec_get(sub_type).ids@
                + crate::ws_server::requested_ids(*sub_ids) - crate::ws_server::requested_ids(*unsub_ids),
            filter is None <==> final(self).spec_get(sub_type).all,
            filter matches Some(v) ==> v@.to_set() == final(self).spec_get(sub_type).ids@ && v@.no_duplicates(),
    {
        match sub_type {
            SubType::League => apply_sub_request(&mut self.leagues, all, sub_ids, unsub_ids),
            SubType::Draft => apply_sub_request(&mut self.drafts, all, sub_ids, unsub_ids),
            SubType::User => apply_sub_request(&mut self.external_users, all, sub_ids, unsub_ids),
        }
    }
}

/// A request to receive every user, or to stop.
#[derive(Debug, Clone, Copy, PartialEq, Eq, Structural)]
pub struct ApiSubExternalUsers {
    pub toggle: bool,
}

/// A request to change the drafts a client follows.
#[derive(Debug, Clone)]
pub struct ApiSubDrafts {
    pub sub_draft_ids: Option<Vec<u128>>,
    pub unsub_draft_ids: Option<Vec<u128>>,
    pub all: Option<bool>,
}

/// A request to change the leagues a client follows.
#[derive(Debug, Clone)]
pub struct ApiSubLeagues {
    pub sub_league_ids: Option<Vec<u128>>,
    pub unsub_league_ids: Option<Vec<u128>>,
    pub all: Option<bool>,
}

/// Follows the leagues with the given identifiers too.
pub fn sub_to_leagues(subscriptions: &mut Subscriptions, ids: &Vec<u128>)
    ensures
        final(subscriptions).leagues.ids@ == old(subscriptions).leagues.ids@ + ids@.to_set(),
        final(subscriptions).leagues.all == old(subscriptions).leagues.all,
        final(subscriptions).drafts == old(subscriptions).drafts,
        final(subscriptions).external_users == old(subscriptions).external_users,
{
    subscriptions.leagues.subscribe(ids);
}

/// Stops following the leagues with the given identifiers.
pub fn unsub_to_leagues(subscriptions: &mut Subscriptions, ids: &Vec<u128>)
    ensures
        final(subscriptions).leagues.ids@ == old(subscriptions).leagues.ids@ - ids@.to_set(),
        final(subscriptions).leagues.all == old(subscriptions).leagues.all,
        final(subscriptions).drafts == old(subscriptions).drafts,
        final(subscriptions).external_users == old(subscriptions).external_users,
{
    subscriptions.leagues.unsubscribe(ids);
}

/// Follows the drafts with the given identifiers too.
pub fn sub_to_drafts(subscriptions: &mut Subscriptions, ids: &Vec<u128>)
    ensures
        final(subscriptions).drafts.ids@ == old(subscriptions).drafts.ids@ + ids@.to_set(),
        final(subscriptions).drafts.all == old(subscriptions).drafts.all,
        final(subscriptions).leagues == old(subscriptions).leagues,
        final(subscriptions).external_users == old(subscriptions).external_users,
{
    subscriptions.drafts.subscribe(ids);
}

/// Stops following the drafts with the given identifiers.
pub fn unsub_to_drafts(subscriptions: &mut Subscriptions, ids: &Vec<u128>)
    ensures
        final(subscriptions).drafts.ids@ == old(subscriptions).drafts.ids@ - ids@.to_set(),
        final(subscriptions).drafts.all == old(subscriptions).drafts.all,
        final(subscriptions).leagues == old(subscriptions).leagues,
        final(subscriptions).external_users == old(subscriptions).external_users,
{
    subscriptions.drafts.unsubscribe(ids);
}

/// Follows every league, or stops doing so.
pub fn sub_to_all_leagues(subscriptions: &mut Subscriptions, toggle: bool)
    ensures
        final(subscriptions).leagues.all == toggle,
        final(subscriptions).leagues.ids@ == old(subscriptions).leagues.ids@,
        final(subscriptions).drafts == old(subscriptions).drafts,
        final(subscriptions).external_users == old(subscriptions).external_users,
{
    subscriptions.leagues.set_all(toggle);
}

/// Follows every draft, or stops doing so.
pub fn sub_to_all_drafts(subscriptions: &mut Subscriptions, toggle: bool)
    ensures
        final(subscriptions).drafts.all == toggle,
        final(subscriptions).drafts.ids@ == old(subscriptions).drafts.ids@,
        final(subscriptions).leagues == old(subscriptions).leagues,
        final(subscriptions).external_users == old(subscriptions).external_users,
{
    subscriptions.drafts.set_all(toggle);
}

/// Receives every user, or stops doing so.
pub fn sub_to_external_users(subscriptions: &mut Subscriptions, toggle: bool)
    ensures
        final(subscriptions).external_users.all == toggle,
        final(subscriptions).external_users.ids@ == old(subscriptions).external_users.ids@,
        final(subscriptions).leagues == old(subscriptions).leagues,
        final(subscriptions).drafts == old(subscriptions).drafts,
{
    subscriptions.external_users.set_all(toggle);
}

/// The items of `all` that reach a client through its league subscription.
pub fn subscribed_leagues<'a, T: Publishable<SubType>>(subscriptions: &Subscriptions, all: &'a Vec<T>) -> (r: Vec<&'a T>)
    requires
        subscriptions.leagues.all || crate::ws_server::keys_known(all@, SubType::League, None),
    ensures
        crate::ws_server::deref_all(r@) == crate::ws_server::subscribed(all@, subscriptions.leagues, SubType::League, None),
{
    subscribed_publishables(all, &subscriptions.leagues, &SubType::League, &None)
}

/// The items of `all` that reach a client through its draft subscription.
pub fn subscribed_drafts<'a, T: Publishable<SubType>>(subscriptions: &Subscriptions, all: &'a Vec<T>) -> (r: Vec<&'a T>)
    requires
        subscriptions.drafts.all || crate::ws_server::keys_known(all@, SubType::Draft, None),
    ensures
        crate::ws_server::deref_all(r@) == crate::ws_server::subscribed(all@, subscriptions.drafts, SubType::Draft, None),
{
    subscribed_publishables(all, &subscriptions.drafts, &SubType::Draft, &None)
}

} // verus!
