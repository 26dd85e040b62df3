//! The single-machine game: card types, card ordering, the game engine and the bot.
pub mod types;
pub mod card;
pub mod engine;
pub mod bot;
