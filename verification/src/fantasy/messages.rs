//! The subscription requests clients send to the fantasy server.
use vstd::prelude::*;

verus! {

/// A request to receive every user, or to stop.
#[derive(Debug, Clone, Copy, PartialEq, Eq, Structural)]
pub struct SubUser {
    pub toggle: bool,
}

/// A request to change the drafts a client follows.
#[derive(Debug, Clone)]
pub struct SubDraft {
    pub sub_draft_ids: Option<Vec<u128>>,
    pub unsub_draft_ids: Option<Vec<u128>>,
    pub all: Option<bool>,
}

/// A request to change the leagues a client follows.
#[derive(Debug, Clone)]
pub struct SubLeague {
    pub sub_league_ids: Option<Vec<u128>>,
    pub unsub_league_ids: Option<Vec<u128>>,
    pub all: Option<bool>,
}

} // verus!
