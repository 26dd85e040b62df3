//! Game logic of the Tengchong "baifen" card game: the client-side engine and
//! bot, and the server-side game rooms, room bookkeeping and account rules.
pub mod clock;
pub mod sorting;
pub mod client;
pub mod server;
