//! Verified core of a fantasy-sports backend: draft scheduling and picking,
//! team validation, timespan handling, subscriptions and publish filtering.
pub mod timespan;
pub mod my_timespan_format;
pub mod my_timespan_format_opt;
pub mod fantasy;
mod ids;
mod random;
mod text;
mod clock;
pub mod ws_server;
pub mod leaderboard;
pub mod result;
