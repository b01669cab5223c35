//! A pane on the screen: what lies under the pointer, selections, search,
//! bells and notifications, and what is drawn where.

pub mod draw;
pub mod drawing_laws;
pub mod hover;
pub mod keys;
pub mod lookup;
pub mod pane_laws;
pub mod pointer;
pub mod search;
pub mod search_laws;
pub mod state;
pub mod view;
