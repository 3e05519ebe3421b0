//! A turn-based text combat game: the data model of combatants, items and
//! skills, the arithmetic of an attack round, and the state transitions of
//! the roster, each with a verified contract.

pub mod combat;
pub mod command;
pub mod dice;
pub mod entity;
pub mod item;
pub mod menu;
pub mod skills;
pub mod spawn;
pub mod state;
pub mod stats;
pub mod text;
pub mod turn;
pub mod views;
pub mod words;
