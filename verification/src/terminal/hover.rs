//! What the pointer hovers over: addresses and blocks of code.

use vstd::prelude::*;

use crate::terminal::lookup::{detect_url_at, url_at, HoverModel, HoverUrl};
use crate::text::same_text;
use crate::vt::{Screen, ScreenModel};

verus! {

/// A block of code with a drawn border, by the rows and columns of the border.
#[derive(Clone, Copy, Debug, PartialEq, Eq, Structural)]
pub struct CodeBlock {
    pub top_row: usize,
    pub bottom_row: usize,
    pub left_col: usize,
    pub right_col: usize,
}

/// Whether a cell lies in a block or on its border.
pub open spec fn block_has(b: CodeBlock, row: usize, col: usize) -> bool {
    b.top_row <= row <= b.bottom_row && b.left_col <= col <= b.right_col
}

impl CodeBlock {
    /// Whether a cell lies in the block or on its border.
    pub fn contains(&self, row: usize, col: usize) -> (b: bool)
        ensures
            b == block_has(*self, row, col),
    {
        self.top_row <= row && row <= self.bottom_row && self.left_col <= col && col
            <= self.right_col
    }
}

/// No cell: what is remembered as the last cell when there is none.
pub const NO_CELL: usize = usize::MAX;

/// What the pointer hovers over.
#[derive(Debug, PartialEq, Eq)]
pub struct HoverState {
    pub hover_url: Option<HoverUrl>,
    /// The cell that was last looked at, by row and column.
    pub last_hover_row: usize,
    pub last_hover_col: usize,
    pub hovered_code_block: Option<CodeBlock>,
    /// The blocks in view.
    pub detected_code_blocks: Vec<CodeBlock>,
    /// The count of changes of the screen at which they were found.
    pub code_blocks_generation: u64,
    /// The cell at which a block was last looked for.
    pub last_block_row: usize,
    pub last_block_col: usize,
}

/// The same as a mathematical value.
pub ghost struct HoverStateModel {
    pub hover_url: Option<HoverModel>,
    pub last_hover_cell: (usize, usize),
    pub hovered_code_block: Option<CodeBlock>,
    pub detected_code_blocks: Seq<CodeBlock>,
    pub code_blocks_generation: u64,
    pub last_hover_block_cell: (usize, usize),
}

/// An address under the pointer, or none.
pub open spec fn optional_hover(h: Option<HoverUrl>) -> Option<HoverModel> {
    match h {
        Some(u) => Some(u@),
        None => None,
    }
}

impl View for HoverState {
    type V = HoverStateModel;

    open spec fn view(&self) -> HoverStateModel {
        HoverStateModel {
            hover_url: optional_hover(self.hover_url),
            last_hover_cell: (self.last_hover_row, self.last_hover_col),
            hovered_code_block: self.hovered_code_block,
            detected_code_blocks: self.detected_code_blocks@,
            code_blocks_generation: self.code_blocks_generation,
            last_hover_block_cell: (self.last_block_row, self.last_block_col),
        }
    }
}

/// The first block that has a cell.
pub open spec fn block_at(blocks: Seq<CodeBlock>, row: usize, col: usize) -> Option<CodeBlock>
    decreases blocks.len(),
{
    if blocks.len() == 0 {
        None
    } else if block_has(blocks[0], row, col) {
        Some(blocks[0])
    } else {
        block_at(blocks.skip(1), row, col)
    }
}

/// Where the pointer moved to, and what is shown there.
#[derive(Clone, Copy, Debug, PartialEq, Eq)]
pub struct Motion {
    pub row: usize,
    pub col: usize,
    pub mouse_tracking: bool,
    pub alternate_screen: bool,
}

/// The state after the pointer moved to another cell, as far as blocks go. On
/// the alternate screen, and where the program wants the events of the mouse,
/// no block is hovered over. Otherwise blocks are found anew where the screen
/// has changed, and looked for where the cell has.
pub open spec fn over_blocks(
    m: HoverStateModel,
    at: Motion,
    generation: u64,
    found: Seq<CodeBlock>,
) -> HoverStateModel {
    if !at.mouse_tracking && !at.alternate_screen {
        let blocks = if generation != m.code_blocks_generation {
            found
        } else {
            m.detected_code_blocks
        };
        let known = HoverStateModel {
            detected_code_blocks: blocks,
            code_blocks_generation: generation,
            ..m
        };
        if m.last_hover_block_cell != (at.row, at.col) {
            HoverStateModel {
                last_hover_block_cell: (at.row, at.col),
                hovered_code_block: block_at(blocks, at.row, at.col),
                ..known
            }
        } else {
            known
        }
    } else {
        HoverStateModel { hovered_code_block: None, ..m }
    }
}

/// The state after the pointer moved to a cell. One within the same cell
/// changes nothing.
pub open spec fn moved_to(
    m: HoverStateModel,
    at: Motion,
    screen: ScreenModel,
    found: Seq<CodeBlock>,
) -> HoverStateModel {
    if m.last_hover_cell == (at.row, at.col) {
        m
    } else {
        over_blocks(
            HoverStateModel {
                last_hover_cell: (at.row, at.col),
                hover_url: url_at(screen, at.row as int, at.col as int),
                ..m
            },
            at,
            screen.generation,
            found,
        )
    }
}

/// What a move of the pointer leads to.
#[derive(Clone, Copy, Debug, PartialEq, Eq)]
pub struct MotionStep {
    /// The shape that the pointer takes on: a hand over an address. None where
    /// it stays as it is.
    pub hand: Option<bool>,
    pub redraw: bool,
}

/// What a move of the pointer leads to, by the states before and after it.
pub open spec fn motion_step_of(from: HoverStateModel, to: HoverStateModel) -> MotionStep {
    MotionStep {
        hand: if to.hover_url == from.hover_url {
            None
        } else {
            Some(to.hover_url is Some)
        },
        redraw: to.hover_url != from.hover_url || to.hovered_code_block != from.hovered_code_block,
    }
}

fn same_hover(a: &Option<HoverUrl>, b: &Option<HoverUrl>) -> (same: bool)
    ensures
        same == (optional_hover(*a) == optional_hover(*b)),
{
    match (a, b) {
        (Some(x), Some(y)) => {
            let same = same_text(x.url.as_str(), y.url.as_str()) && x.screen_row == y.screen_row
                && x.col_start == y.col_start && x.col_end == y.col_end;
            same
        },
        (None, None) => true,
        _ => false,
    }
}

fn same_block(a: Option<CodeBlock>, b: Option<CodeBlock>) -> (same: bool)
    ensures
        same == (a == b),
{
    match (a, b) {
        (Some(x), Some(y)) => x == y,
        (None, None) => true,
        _ => false,
    }
}

fn find_block(blocks: &Vec<CodeBlock>, row: usize, col: usize) -> (block: Option<CodeBlock>)
    ensures
        block == block_at(blocks@, row, col),
{
    let mut i: usize = 0;
    assert(blocks@.skip(0) =~= blocks@);
    while i < blocks.len()
        invariant
            i <= blocks@.len(),
            block_at(blocks@, row, col) == block_at(blocks@.skip(i as int), row, col),
        decreases blocks@.len() - i,
    {
        if blocks[i].contains(row, col) {
            return Some(blocks[i]);
        }
        assert(blocks@.skip(i as int).skip(1) =~= blocks@.skip(i + 1));
        i = i + 1;
    }
    None
}

impl HoverState {
    /// The pointer is nowhere yet; blocks are found at its first move.
    pub fn new() -> (s: HoverState)
        ensures
            s@ == (HoverStateModel {
                hover_url: None,
                last_hover_cell: (NO_CELL, NO_CELL),
                hovered_code_block: None,
                detected_code_blocks: Seq::empty(),
                code_blocks_generation: u64::MAX,
                last_hover_block_cell: (NO_CELL, NO_CELL),
            }),
    {
        HoverState {
            hover_url: None,
            last_hover_row: NO_CELL,
            last_hover_col: NO_CELL,
            hovered_code_block: None,
            detected_code_blocks: Vec::new(),
            code_blocks_generation: u64::MAX,
            last_block_row: NO_CELL,
            last_block_col: NO_CELL,
        }
    }

    fn blocks_under(&mut self, at: &Motion, generation: u64, found: &Vec<CodeBlock>) -> (changed: bool)
        ensures
            final(self)@ == over_blocks(old(self)@, *at, generation, found@),
            changed == (final(self)@.hovered_code_block != old(self)@.hovered_code_block),
    {
        if !at.mouse_tracking && !at.alternate_screen {
            if generation != self.code_blocks_generation {
                let mut blocks: Vec<CodeBlock> = Vec::new();
                blocks.extend_from_slice(found.as_slice());
                assert(blocks@ =~= found@);
                self.detected_code_blocks = blocks;
                self.code_blocks_generation = generation;
            }
            if self.last_block_row != at.row || self.last_block_col != at.col {
                self.last_block_row = at.row;
                self.last_block_col = at.col;
                let block = find_block(&self.detected_code_blocks, at.row, at.col);
                let same = same_block(self.hovered_code_block, block);
                self.hovered_code_block = block;
                return !same;
            }
            false
        } else {
            let had = self.hovered_code_block.is_some();
            self.hovered_code_block = None;
            had
        }
    }

    /// Takes that the pointer moved. `found` are the blocks of code in view.
    pub fn motion(&mut self, at: &Motion, screen: &Screen, found: &Vec<CodeBlock>) -> (step:
        MotionStep)
        ensures
            final(self)@ == moved_to(old(self)@, *at, screen@, found@),
            step == motion_step_of(old(self)@, final(self)@),
    {
        if self.last_hover_row == at.row && self.last_hover_col == at.col {
            return MotionStep { hand: None, redraw: false };
        }
        self.last_hover_row = at.row;
        self.last_hover_col = at.col;
        let hover = detect_url_at(screen, at.row, at.col);
        let same = same_hover(&self.hover_url, &hover);
        let over_url = hover.is_some();
        self.hover_url = hover;
        let hand = if same {
            None
        } else {
            Some(over_url)
        };
        let block_changed = self.blocks_under(at, screen.generation(), found);
        MotionStep { hand, redraw: !same || block_changed }
    }

    /// Takes that the pointer left the pane. Returns whether that changes what
    /// is drawn.
    pub fn leave(&mut self) -> (redraw: bool)
        ensures
            redraw == (old(self)@.hover_url is Some || old(self)@.hovered_code_block is Some),
            final(self)@ == (HoverStateModel {
                hover_url: None,
                hovered_code_block: None,
                last_hover_block_cell: if old(self)@.hovered_code_block is Some {
                    (NO_CELL, NO_CELL)
                } else {
                    old(self)@.last_hover_block_cell
                },
                ..old(self)@
            }),
    {
        let had_url = self.hover_url.is_some();
        let had_block = self.hovered_code_block.is_some();
        self.hover_url = None;
        if had_block {
            self.hovered_code_block = None;
            self.last_block_row = NO_CELL;
            self.last_block_col = NO_CELL;
        }
        had_url || had_block
    }

    /// Takes that the view moved under the pointer.
    pub fn scrolled(&mut self)
        ensures
            final(self)@ == (HoverStateModel {
                hover_url: None,
                last_hover_cell: (NO_CELL, NO_CELL),
                hovered_code_block: None,
                last_hover_block_cell: (NO_CELL, NO_CELL),
                ..old(self)@
            }),
    {
        self.hover_url = None;
        self.last_hover_row = NO_CELL;
        self.last_hover_col = NO_CELL;
        self.hovered_code_block = None;
        self.last_block_row = NO_CELL;
        self.last_block_col = NO_CELL;
    }
}

} // verus!
