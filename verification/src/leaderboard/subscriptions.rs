//! What each client of the leaderboard server is subscribed to.
use vstd::prelude::*;
use crate::ws_server::{Subscription, apply_sub_request};

verus! {

/// The kinds of items a client can subscribe to.
#[derive(Debug, Clone, Copy, PartialEq, Eq, Structural, Hash)]
pub enum SubType {
    League,
    Leaderboard,
}

/// One client's subscriptions, one per kind of item.
#[derive(Debug)]
pub struct Subscriptions {
    pub leagues: Subscription,
    pub leaderboards: Subscription,
}

impl Subscriptions {
    /// The subscription of the given kind.
    pub open spec fn spec_get(&self, sub_type: SubType) -> Subscription {
        match sub_type {
            SubType::League => self.leagues,
            SubType::Leaderboard => self.leaderboards,
        }
    }

    /// Subscribed to nothing of either kind.
    pub fn new() -> (s: Subscriptions)
        ensures
            forall|t: SubType| (#[trigger] s.spec_get(t)).ids@ == Set::<u128>::empty() && !s.spec_get(t).all,
    {
        Subscriptions { leagues: Subscription::new(), leaderboards: Subscription::new() }
    }

    /// The subscription of the given kind.
    pub fn get(&self, sub_type: &SubType) -> (s: &Subscription)
        ensures
            *s == self.spec_get(*sub_type),
    {
        match sub_type {
            SubType::League => &self.leagues,
            SubType::Leaderboard => &self.leaderboards,
        }
    }

    /// Applies a subscription request to the subscription of one kind (see
    /// `apply_sub_request`) and leaves the other alone. Returns what the
    /// reply is loaded for: `None` for everything, otherwise the identifiers.
    pub fn apply(
        &mut self,
        sub_type: SubType,
        all: Option<bool>,
        sub_ids: &Option<Vec<u128>>,
        unsub_ids: &Option<Vec<u128>>,
    ) -> (filter: Option<Vec<u128>>)
        ensures
            forall|t: SubType| t != sub_type ==> #[trigger] final(self).spec_get(t) == old(self).spec_get(t),
            final(self).spec_get(sub_type).all == (match all {
                Some(t) => t,
                None => old(self).spec_get(sub_type).all,
            }),
            final(self).spec_get(sub_type).ids@ == old(self).spec_get(sub_type).ids@
                + crate::ws_server::requested_ids(*sub_ids) - crate::ws_server::requested_ids(*unsub_ids),
            filter is None <==> final(self).spec_get(sub_type).all,
            filter matches Some(v) ==> v@.to_set() == final(self).spec_get(sub_type).ids@ && v@.no_duplicates(),
    {
        match sub_type {
            SubType::League => apply_sub_request(&mut self.leagues, all, sub_ids, unsub_ids),
            SubType::Leaderboard => apply_sub_request(&mut self.leaderboards, all, sub_ids, unsub_ids),
        }
    }
}

/// Follows the leagues with the given identifiers too.
pub fn sub_to_leagues(subscriptions: &mut Subscriptions, ids: &Vec<u128>)
    ensures
        final(subscriptions).leagues.ids@ == old(subscriptions).leagues.ids@ + ids@.to_set(),
        final(subscriptions).leagues.all == old(subscriptions).leagues.all,
        final(subscriptions).leaderboards == old(subscriptions).leaderboards,
{
    subscriptions.leagues.subscribe(ids);
}

/// Stops following the leagues with the given identifiers.
pub fn unsub_to_leagues(subscriptions: &mut Subscriptions, ids: &Vec<u128>)
    ensures
        final(subscriptions).leagues.ids@ == old(subscriptions).leagues.ids@ - ids@.to_set(),
        final(subscriptions).leagues.all == old(subscriptions).leagues.all,
        final(subscriptions).leaderboards == old(subscriptions).leaderboards,
{
    subscriptions.leagues.unsubscribe(ids);
}

/// Follows the leaderboards with the given identifiers too.
pub fn sub_to_leaderboards(subscriptions: &mut Subscriptions, ids: &Vec<u128>)
    ensures
        final(subscriptions).leaderboards.ids@ == old(subscriptions).leaderboards.ids@ + ids@.to_set(),
        final(subscriptions).leaderboards.all == old(subscriptions).leaderboards.all,
        final(subscriptions).leagues == old(subscriptions).leagues,
{
    subscriptions.leaderboards.subscribe(ids);
}

/// Stops following the leaderboards with the given identifiers.
pub fn unsub_to_leaderboards(subscriptions: &mut Subscriptions, ids: &Vec<u128>)
    ensures
        final(subscriptions).leaderboards.ids@ == old(subscriptions).leaderboards.ids@ - ids@.to_set(),
        final(subscriptions).leaderboards.all == old(subscriptions).leaderboards.all,
        final(subscriptions).leagues == old(subscriptions).leagues,
{
    subscriptions.leaderboards.unsubscribe(ids);
}

/// Follows every league, or stops doing so.
pub fn sub_to_all_leagues(subscriptions: &mut Subscriptions, toggle: bool)
    ensures
        final(subscriptions).leagues.all == toggle,
        final(subscriptions).leagues.ids@ == old(subscriptions).leagues.ids@,
        final(subscriptions).leaderboards == old(subscriptions).leaderboards,
{
    subscriptions.leagues.set_all(toggle);
}

/// Follows every leaderboard, or stops doing so.
pub fn sub_to_all_leaderboards(subscriptions: &mut Subscriptions, toggle: bool)
    ensures
        final(subscriptions).leaderboards.all == toggle,
        final(subscriptions).leaderboards.ids@ == old(subscriptions).leaderboards.ids@,
        final(subscriptions).leagues == old(subscriptions).leagues,
{
    subscriptions.leaderboards.set_all(toggle);
}

} // verus!
