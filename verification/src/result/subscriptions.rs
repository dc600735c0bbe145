//! What each client of the results server is subscribed to.
use vstd::prelude::*;
use crate::ws_server::{Subscription, apply_sub_request};
use crate::result::messages::SubTeam;

verus! {

/// The kinds of items a client can subscribe to.
#[derive(Debug, Clone, Copy, PartialEq, Eq, Structural, Hash)]
pub enum SubType {
    Team,
    Competition,
}

/// One client's subscriptions: one per kind of item, and whether it
/// receives player updates.
#[derive(Debug)]
pub struct Subscriptions {
    pub teams: Subscription,
    pub competitions: Subscription,
    pub players: bool,
}

impl Subscriptions {
    /// The subscription of the given kind.
    pub open spec fn spec_get(&self, sub_type: SubType) -> Subscription {
        match sub_type {
            SubType::Team => self.teams,
            SubType::Competition => self.competitions,
        }
    }

    /// The subscription of the given kind.
    pub fn get(&self, sub_type: &SubType) -> (s: &Subscription)
        ensures
            *s == self.spec_get(*sub_type),
    {
        match sub_type {
            SubType::Team => &self.teams,
            SubType::Competition => &self.competitions,
        }
    }

    /// Applies a subscription request to the subscription of one kind (see
    /// `apply_sub_request`) and leaves the rest alone. Returns what the reply
    /// is loaded for: `None` for everything, otherwise the identifiers.
    pub fn apply(
        &mut self,
        sub_type: SubType,
        all: Option<bool>,
        sub_ids: &Option<Vec<u128>>,
        unsub_ids: &Option<Vec<u128>>,
    ) -> (filter: Option<Vec<u128>>)
        ensures
            forall|t: SubType| t != sub_type ==> #[trigger] final(self).spec_get(t) == old(self).spec_get(t),
            final(self).players == old(self).players,
            final(self).spec_get(sub_type).all == (match all {
                Some(t) => t,
                None => old(self).spec_get(sub_type).all,
            }),
            final(self).spec_get(sub_type).ids@ == old(self).spec_get(sub_type).ids@
                + crate::ws_server::requested_ids(*sub_ids) - crate::ws_server::requested_ids(*unsub_ids),
            filter is None <==> final(self).spec_get(sub_type).all,
            filter matches Some(v) ==> v@.to_set() == final(self).spec_get(sub_type).ids@ && v@.no_duplicates(),
    {
        match sub_type {
            SubType::Team => apply_sub_request(&mut self.teams, all, sub_ids, unsub_ids),
            SubType::Competition => apply_sub_request(&mut self.competitions, all, sub_ids, unsub_ids),
        }
    }

    /// Applies a request for every team: a request to receive them switches
    /// the team subscription to everything, a request to stop changes
    /// nothing. Returns whether the reply carries every team, which the
    /// server decides by the competition subscription's switch.
    pub fn apply_sub_team(&mut self, data: &SubTeam) -> (load_teams: bool)
        ensures
            final(self).teams.all == (data.toggle || old(self).teams.all),
            final(self).teams.ids@ == old(self).teams.ids@,
            final(self).competitions == old(self).competitions,
            final(self).players == old(self).players,
            load_teams == old(self).competitions.all,
    {
        if data.toggle {
            self.teams.set_all(true);
        }
        self.competitions.all
    }
}

/// Sets up a new client's subscriptions.
pub struct MySubHandler {}

impl MySubHandler {
    /// Subscribed to nothing of either kind, and to no player updates.
    pub fn new() -> (s: Subscriptions)
        ensures
            forall|t: SubType| (#[trigger] s.spec_get(t)).ids@ == Set::<u128>::empty() && !s.spec_get(t).all,
            !s.players,
    {
        Subscriptions { teams: Subscription::new(), competitions: Subscription::new(), players: false }
    }
}

/// Follows the competitions with the given identifiers too.
pub fn sub_to_competitions(subscriptions: &mut Subscriptions, competition_ids: &Vec<u128>)
    ensures
        final(subscriptions).competitions.ids@ == old(subscriptions).competitions.ids@ + competition_ids@.to_set(),
        final(subscriptions).competitions.all == old(subscriptions).competitions.all,
        final(subscriptions).teams == old(subscriptions).teams,
        final(subscriptions).players == old(subscriptions).players,
{
    subscriptions.competitions.subscribe(competition_ids);
}

/// Receives every team, or stops doing so.
pub fn sub_to_teams(subscriptions: &mut Subscriptions, toggle: bool)
    ensures
        final(subscriptions).teams.all == toggle,
        final(subscriptions).teams.ids@ == old(subscriptions).teams.ids@,
        final(subscriptions).competitions == old(subscriptions).competitions,
        final(subscriptions).players == old(subscriptions).players,
{
    subscriptions.teams.set_all(toggle);
}

/// Receives player updates, or stops doing so.
pub fn sub_to_players(subscriptions: &mut Subscriptions, toggle: bool)
    ensures
        final(subscriptions).players == toggle,
        final(subscriptions).teams == old(subscriptions).teams,
        final(subscriptions).competitions == old(subscriptions).competitions,
{
    subscriptions.players = toggle;
}

} // verus!
