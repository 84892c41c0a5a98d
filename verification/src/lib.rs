//! A small library behind a command-line tool that hands out short random
//! identifiers (three letters followed by a two-digit number), keeps a
//! newline-delimited file of the identifiers already given out so that a new
//! one never repeats a saved one, and reads a flat `key = value` configuration
//! file that says where that saved-ids file lives.

pub mod config;
pub mod ids;
pub mod paths;
pub mod random;
pub mod text;
