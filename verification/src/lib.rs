//! Taipan! trading game: the rules of the China Seas, verified.

pub mod rng;
pub mod text;
pub mod scan;
pub mod market;
pub mod travel;
pub mod economy;
pub mod game;
pub mod combat;
pub mod events;
pub mod state;
pub mod line;
pub mod action;
pub mod ui;
pub mod run;
pub mod reload;
pub mod replay;
