//! The users of the fantasy server and the commissioners among them.
use vstd::prelude::*;

verus! {

/// A user as the outside system knows them. `meta` is free-form JSON text.
#[derive(Debug, Clone)]
pub struct ExternalUser {
    pub external_user_id: u128,
    pub username: String,
    pub meta: String,
}

/// A partial change to a user; `None` leaves a field as it is.
#[derive(Debug, Clone)]
pub struct ExternalUserUpdate {
    pub external_user_id: u128,
    pub username: Option<String>,
    pub meta: Option<String>,
}

/// A user who runs leagues.
#[derive(Debug, Clone)]
pub struct Commissioner {
    pub commissioner_id: u128,
    pub external_user_id: u128,
    pub meta: String,
}

/// A partial change to a commissioner; `None` leaves a field as it is.
#[derive(Debug, Clone)]
pub struct ComissionerUpdate {
    pub commissioner_id: u128,
    pub external_user_id: Option<u128>,
    pub meta: Option<String>,
}

} // verus!
