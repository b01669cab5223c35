//! Sessions: the registry of panes, the layout of workspaces and tabs, and the
//! bytes kept for replay.

pub mod byte_log;
pub mod events;
pub mod keeping_laws;
pub mod laws;
pub mod layout;
pub mod manager;
pub mod model;
pub mod model_laws;
pub mod pane;
pub mod standing_laws;
pub mod workspace;
