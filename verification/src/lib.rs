//! The verified core of a terminal multiplexer: sessions of panes and tabs,
//! the JSON-RPC requests that drive them, device pairing and sync, terminal
//! search and selection, input encoding and drawing plans.
//!
//! Everything here computes on plain values. Sockets, PTYs, files, windows and
//! clocks belong to the program around it, which hands in what it read and
//! performs what the functions here decide.

pub mod error;
pub mod ids;
pub mod pty;
pub mod ratio;
pub mod renderer;
pub mod seqs;
pub mod session;
pub mod socket;
pub mod sync;
pub mod terminal;
pub mod text;
pub mod text_laws;
pub mod ui;
pub mod viewer;
pub mod vt;
