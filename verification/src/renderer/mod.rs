//! What is drawn on the graphics card: colours, changed rows, texts and bars.

pub mod color;
pub mod cursor;
pub mod damage;
pub mod frame;
pub mod frame_laws;
pub mod grid;
pub mod statusbar;
pub mod text_plan;
