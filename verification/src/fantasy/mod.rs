//! The fantasy-league server: leagues, drafts, picks and teams.
pub mod errors;
pub mod position_map;
pub mod drafting;
pub mod types;
pub mod result_client;
pub mod subscriptions;
pub mod messages;
pub mod publisher;
pub mod active_picks;
