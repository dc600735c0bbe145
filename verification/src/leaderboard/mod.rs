//! The leaderboard server: leaderboards per league and the players' stats on them.
pub mod types;
pub mod subscriptions;
pub mod messages;
pub mod publisher;
