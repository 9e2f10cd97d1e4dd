//! The decision core of a Discord music bot: which songs there are, what each slash command
//! means, what the bot replies, and in which order it acts on the outside world.

pub mod action;
pub mod command;
pub mod handler;
pub mod laws;
pub mod meaning;
pub mod order;
pub mod run;
pub mod script;
pub mod song;
pub mod state;
pub mod text;
pub mod trace;
