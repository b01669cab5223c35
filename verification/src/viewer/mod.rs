//! Pages for files that are shown beside the terminal: documents in Markdown
//! and images.

pub mod image_viewer;
pub mod markdown;
pub mod page_laws;
pub mod style;
pub mod webview;
