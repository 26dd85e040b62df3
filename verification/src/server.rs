//! The game server: cards and game rooms, room bookkeeping, accounts and the
//! replies to table messages.
pub mod cards;
pub mod game;
pub mod state;
pub mod text;
pub mod room;
pub mod stamps;
pub mod user;
pub mod credentials;
pub mod auth;
pub mod ws;
