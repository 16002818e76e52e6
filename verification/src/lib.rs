//! Bots that compete for the cells of a shared toroidal board.
//!
//! Each bot is a small tape machine: a fixed program of instructions, an
//! instruction pointer, a mark and a head that points at one cell of the board.
//! A turn runs a bounded burst of instructions and ends early once the bot has
//! placed its mark.

pub mod board;
pub mod bot;
pub mod machine;
pub mod random;
