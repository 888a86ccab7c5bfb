//! A falling-block puzzle game as a library: the rules of the game with
//! their proofs, and what a program needs to know to show the game and to
//! read its keys.
//!
//! `engine` holds the playfield, the pieces, their random supply and the
//! state machine that a tick advances. `interface` holds colours, places on
//! the screen and the meaning of the keys, as plain values.
pub mod engine;
pub mod interface;
