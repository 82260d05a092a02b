//! hitair: the round, scoring, profile and lobby rules of a song-guessing game.

pub mod anime;
pub mod audio;
pub mod changelog;
pub mod config;
mod changelog_text;
pub mod deezer;
pub mod game;
pub mod lobby;
pub mod profile;
pub mod realtime;
pub mod session;
pub mod supa;
pub mod text;
pub mod ui;
pub mod update;
