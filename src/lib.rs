//! Core of a two-player turn-based game server: the game state machine, the
//! per-room command processor, the per-connection gateway decisions, the access
//! rules for protected routes, and the record changes of a finished match.

pub mod access;
pub mod account;
pub mod game;
pub mod gateway;
pub mod room;
pub mod stats;
