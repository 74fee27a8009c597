//! The rules of a small falling-targets shooter: the player slides along the
//! ground, fires bullets upwards and must keep the falling enemy away from
//! itself.  The library holds the whole game state and decides each frame; the
//! program around it reads the joystick line, keeps the clock and paints.
//!
//! Every length is kept in thousandths of a screen unit, so that the game runs
//! on integers.

pub mod command;
pub mod entities;
pub mod game;
pub mod laws;
pub mod proofs;
mod random;
pub mod rules;
pub mod scene;
