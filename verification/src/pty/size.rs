//! The size of a terminal.

use vstd::prelude::*;

verus! {

/// Rows and columns of a terminal, and its size in pixels.
#[derive(Clone, Copy, Debug, PartialEq, Eq, Structural)]
pub struct PtySize {
    pub rows: u16,
    pub cols: u16,
    pub pixel_width: u16,
    pub pixel_height: u16,
}

impl Default for PtySize {
    fn default() -> (size: PtySize)
        ensures
            size == (PtySize { rows: 24, cols: 80, pixel_width: 0, pixel_height: 0 }),
    {
        PtySize { rows: 24, cols: 80, pixel_width: 0, pixel_height: 0 }
    }
}

} // verus!
