//! The records the fantasy server stores and sends.
pub mod drafts;
pub mod fantasy_teams;
pub mod team_hierarchy;
pub mod leagues;
pub mod users;
pub mod valid_players;
