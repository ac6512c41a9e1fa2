//! A chess rules core: board representation, move generation, attack
//! detection and move application, with machine-checked contracts.

pub mod piece;
pub mod square;
pub mod position;
pub mod ply;
pub mod board;
pub mod attack;
pub mod rules;
pub mod laws;
pub mod reach;
pub mod kings;
pub mod sight;
