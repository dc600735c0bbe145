//! The records the results server stores and sends.
pub mod players;
pub mod teams;
pub mod results;
pub mod matches;
pub mod series;
