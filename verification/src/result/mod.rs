//! The results server: competitions, teams and players, and which clients hear of them.
pub mod types;
pub mod subscriptions;
pub mod messages;
pub mod publisher;
pub mod hierarchy;
