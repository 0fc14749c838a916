//! Verified core of the beetle-hunt bot: inventory bookkeeping, the friends
//! database, leaderboard ordering and rendering, and the text parsing and
//! formatting the bot relies on.

pub mod automation;
pub mod bot;
pub mod clock;
pub mod html_generator;
pub mod json;
pub mod leaderboard;
pub mod models;
pub mod reauth;
pub mod sorting;
pub mod text;
pub mod utils;
