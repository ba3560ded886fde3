//! Core of a multilingual spelling game: script-aware segmentation of a word
//! into grid units, construction of the shuffled letter grid, and the round and
//! session state machines.

pub mod database;
pub mod game;
pub mod grid;
pub mod script;
pub mod units;
