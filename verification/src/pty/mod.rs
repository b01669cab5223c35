//! Terminals of child processes: their sizes, their ids and the commands they run.

pub mod bridge;
pub mod multiplexer;
pub mod process;
pub mod size;
pub mod starting_laws;
