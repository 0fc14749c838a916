//! The bot's own view of the game: the cooldowns endpoint, the inventory and
//! user as the bot reads them, the session bookkeeping of its workers, and
//! the decisions its loops take.

pub mod engage;
pub mod feed;
pub mod game;
pub mod menu;
pub mod session;
pub mod workers;
