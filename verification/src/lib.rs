//! A Twitch chat bot's moderation and mini-game logic: spam filters, escalating
//! timeouts, the `$snap` mini-game and an easter egg, written as verified functions
//! from chat events to the actions the bot takes.

pub mod chance;
pub mod laws;
pub mod modules;
pub mod table;
pub mod text;
