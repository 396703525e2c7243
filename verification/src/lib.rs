//! Verified core of an isomorphic hexagonal MIDI keyboard: key layouts,
//! hexagon geometry, key colouring and the press/release state machine.

pub mod arith;
pub mod board;
pub mod color;
pub mod keyboard;
pub mod layout;
pub mod state;
