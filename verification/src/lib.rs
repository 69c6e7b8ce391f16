//! Command parsing, queue management and chat-bot rules of a Twitch bot,
//! with their contracts proved by Verus.

pub mod text;
pub mod commands;
pub mod simple_commands;
pub mod table;
pub mod gamejam;
pub mod random;
pub mod quote;
pub mod custom;
pub mod vote;
pub mod reply;
pub mod ld;
pub mod classic;
pub mod classic_sheet;
pub mod classic_commands;
pub mod classic_laws;
pub mod registry;
pub mod channels;
pub mod server;
pub mod completion;
