//! Windows of tabs and panes: trees of panes, keys and their bytes, the
//! clipboard, and notifications.

pub mod app;
pub mod clipboard;
pub mod ghostty_input;
pub mod input;
pub mod key_laws;
pub mod keybindings;
pub mod keys;
pub mod notifications;
pub mod pane;
pub mod pane_tree;
pub mod tab;
pub mod tab_bar;
pub mod window_laws;
