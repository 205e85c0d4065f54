//! Emulation of the shell's `$RANDOM` generator in both of its historical
//! variants, and searches that recover the seed behind observed outputs.

pub mod alphabet;
pub mod cli;
pub mod commands;
pub mod date;
pub mod generator;
pub mod laws;
pub mod search;
