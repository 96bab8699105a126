//! The rules of the game, each as a function of plain values.

pub mod game_end;
pub mod pot;
pub mod validate;
