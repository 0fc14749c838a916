//! Data model of the game, the social profile and the friends database.

pub mod auth;
pub mod beetle;
pub mod beetles_categories;
pub mod craft;
pub mod database;
pub mod feed;
pub mod leaderboard;
pub mod profile;
