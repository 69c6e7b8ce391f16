//! The game-jam bot: viewers submit games, the streamer plays them in
//! queue order, skips them, returns them and holds raffles.

pub mod submission;
pub mod queue;
pub mod submissions;
pub mod bot;
pub mod sheet;
pub mod commands;
pub mod laws;
