//! The rules of Coup: identities, actions, public game state, the players'
//! interface and the engine that resolves turns.

pub mod action;
pub mod answers;
pub mod any_player;
pub mod chance;
pub mod config;
pub mod dumb_player;
pub mod field;
pub mod game;
pub mod human_player;
pub mod identity;
pub mod logger;
pub mod player;
pub mod prompter;
pub mod random_player;
pub mod report;
pub mod state;
pub mod table;
pub mod turn;
