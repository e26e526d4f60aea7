//! Deterministic simulation core of a grid-based tower-defense game.
//!
//! The world is a tiled map that holds positioned entities, a player
//! inventory with a treasure balance, and the event log of the last tick.
//! Every operation is a total function on an explicitly owned [`state::State`].

pub mod combat;
pub mod config;
pub mod coordinate;
pub mod error;
pub mod event;
pub mod map;
pub mod object;
pub mod removal;
pub mod state;
pub mod sweep;
