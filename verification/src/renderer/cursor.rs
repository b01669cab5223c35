//! The shapes of the cursor.

use vstd::prelude::*;

verus! {

/// The shape of the cursor.
#[derive(Clone, Copy, Debug, PartialEq, Eq, Structural)]
pub enum CursorStyle {
    /// The whole cell.
    Block,
    /// A thin line at the left of the cell.
    Bar,
    /// A line at the bottom of the cell.
    Underline,
}

} // verus!
