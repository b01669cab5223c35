//! How a pane answers bells, output, keys and the pointer.

use vstd::prelude::*;

use crate::terminal::hover::{
    block_at, block_has, motion_step_of, moved_to, CodeBlock, HoverStateModel, Motion,
};
use crate::terminal::keys::{app_shortcut, key_step_for, Held, KeySym};
use crate::terminal::lookup::{
    delimits, ends_word, is_delimiter, last_col_selected, last_shown, url_at, word_bounds,
};
use crate::terminal::pointer::{
    dragged, press_step, pressed, released, PointerState, Press, PressStepModel,
};
use crate::terminal::view::{
    after_bell, after_bells, after_output, bells_rung, output_step_of, rings, Output, ViewState,
    BELL_COOLDOWN, BELL_FLASH, COPY_CONFIRMED, IDLE_BEFORE_TRIM, INTERRUPT_QUIET,
    NOTIFICATION_COOLDOWN,
};
use crate::vt::{ordered_ends, row_changed, CellModel, ScreenModel, Selection, SelectionMode};

verus! {

// ---------------------------------------------------------------------------
// Bells and output
// ---------------------------------------------------------------------------
/// A bell rings two tenths of a second after the last one that rang, unless bells
/// are kept quiet then. One that rings flashes for a while where flashes are wanted,
/// and leaves a ring around a pane without the focus where notifications are
/// wanted; one that does not ring ends the quiet at most.
pub proof fn law_what_a_bell_does(v: ViewState, at: u64, focused: bool)
    requires
        at + 150 <= u64::MAX,
    ensures
        rings(v, at) <==> at >= v.last_bell + 200 && !(v.suppress_bell_until is Some && at
            < v.suppress_bell_until->0),
        ({
            let n = after_bell(v, at, focused);
            &&& rings(v, at) ==> {
                &&& n.last_bell == at
                &&& v.bell_mode is Visual || v.bell_mode is Both ==> n.bell_flash_until == Some(
                    (at + 150) as u64,
                )
                &&& v.bell_mode is Audio || v.bell_mode is Silent ==> n.bell_flash_until
                    == v.bell_flash_until
                &&& n.notification_ring == (v.notification_ring || (!focused && v.notifications))
                &&& n.suppress_bell_until == v.suppress_bell_until
            }
            &&& !rings(v, at) ==> {
                &&& n.last_bell == v.last_bell
                &&& n.bell_flash_until == v.bell_flash_until
                &&& n.notification_ring == v.notification_ring
                &&& at < v.last_bell + 200 ==> n.suppress_bell_until == v.suppress_bell_until
                &&& at >= v.last_bell + 200 ==> n.suppress_bell_until is None
            }
            &&& n == (ViewState {
                last_bell: n.last_bell,
                bell_flash_until: n.bell_flash_until,
                notification_ring: n.notification_ring,
                suppress_bell_until: n.suppress_bell_until,
                ..v
            })
        }),
{
}

/// Bells are answered one after the other: what comes after two runs of them is
/// what comes after the second, begun where the first left off, and so many rang as
/// rang in both. A single one counts once if it rings.
pub proof fn law_bells_one_after_the_other(
    v: ViewState,
    a: Seq<u64>,
    b: Seq<u64>,
    at: u64,
    focused: bool,
)
    ensures
        after_bells(v, Seq::empty(), focused) == v,
        bells_rung(v, Seq::empty(), focused) == 0,
        after_bells(v, seq![at], focused) == after_bell(v, at, focused),
        bells_rung(v, seq![at], focused) == if rings(v, at) {
            1nat
        } else {
            0nat
        },
        after_bells(v, a + b, focused) == after_bells(after_bells(v, a, focused), b, focused),
        bells_rung(v, a + b, focused) == bells_rung(v, a, focused) + bells_rung(
            after_bells(v, a, focused),
            b,
            focused,
        ),
    decreases b.len(),
{
    assert(seq![at].drop_last() =~= Seq::empty());
    reveal_with_fuel(after_bells, 2);
    reveal_with_fuel(bells_rung, 2);
    if b.len() == 0 {
        assert(a + b =~= a);
    } else {
        assert((a + b).drop_last() =~= a + b.drop_last());
        assert((a + b).last() == b.last());
        law_bells_one_after_the_other(v, a, b.drop_last(), at, focused);
    }
}

/// What output leads to: no notice from a pane with the focus or where none is
/// wanted; sound and flash only where a bell rang and the mode has them; the desktop
/// hears of it at most every two seconds; the view follows unless the user scrolled
/// away; the cursor is reset as the alternate screen is left.
pub proof fn law_what_output_leads_to(v: ViewState, o: Output)
    requires
        o.bells@.len() <= usize::MAX,
        bells_rung(v, o.bells@, o.focused) <= usize::MAX,
    ensures
        ({
            let step = output_step_of(v, o);
            let n = after_output(v, o);
            let rung = bells_rung(v, o.bells@, o.focused);
            &&& o.focused || !v.notifications ==> !step.bell_notice && !step.osc_notice
            &&& !o.focused && v.notifications ==> (step.osc_notice <==> o.notice) && (
            step.bell_notice <==> rung > 0)
            &&& v.bell_mode is Audio || v.bell_mode is Both ==> step.audio_bells == rung
            &&& v.bell_mode is Visual || v.bell_mode is Silent ==> step.audio_bells == 0
            &&& step.flash <==> rung > 0 && (v.bell_mode is Visual || v.bell_mode is Both)
            &&& step.desktop <==> o.now >= v.last_notification + 2000
            &&& step.to_bottom != v.scroll_lock
            &&& step.reset_cursor <==> v.was_alternate_screen && !n.was_alternate_screen
            &&& n.was_alternate_screen == o.alternate_screen
            &&& n.viewport_offset == o.offset
            &&& n.last_pty_data == o.now
            &&& !n.malloc_trimmed
            &&& n.scroll_lock == v.scroll_lock
            &&& step.osc_notice ==> n.notification_ring
            &&& v.notification_ring && rung == 0 ==> n.notification_ring
            &&& n.last_notification != v.last_notification ==> n.last_notification == o.now
            &&& step.desktop && (step.bell_notice || step.osc_notice) ==> n.last_notification
                == o.now
            &&& !(step.desktop && (step.bell_notice || step.osc_notice)) ==> n.last_notification
                == v.last_notification
            &&& rung == 0 && !step.osc_notice ==> n.notification_ring == v.notification_ring
        }),
{
    lemma_silent_bells(v, o.bells@, o.focused);
}

proof fn lemma_silent_bells(v: ViewState, bells: Seq<u64>, focused: bool)
    ensures
        ({
            let n = after_bells(v, bells, focused);
            &&& bells_rung(v, bells, focused) == 0 ==> n.notification_ring == v.notification_ring
                && n.bell_flash_until == v.bell_flash_until && n.last_bell == v.last_bell
            &&& n == (ViewState {
                last_bell: n.last_bell,
                bell_flash_until: n.bell_flash_until,
                notification_ring: n.notification_ring,
                suppress_bell_until: n.suppress_bell_until,
                ..v
            })
        }),
    decreases bells.len(),
{
    if bells.len() > 0 {
        lemma_silent_bells(v, bells.drop_last(), focused);
    }
}

// ---------------------------------------------------------------------------
// Words and rows
// ---------------------------------------------------------------------------
/// The characters between words, and what a cell between words holds.
pub proof fn law_characters_between_words(c: char, g: Seq<char>)
    ensures
        is_delimiter(c) <==> seq![
            ' ', '\t', '"', '\'', '`', '(', ')', '[', ']', '{', '}', '<', '>', ',', ';', '|', ':',
        ].contains(c),
        ends_word(g) <==> g.len() == 0 || (g.len() == 1 && is_delimiter(g[0])),
        delimits(seq![c]) <==> is_delimiter(c),
{
    let all = seq![
        ' ', '\t', '"', '\'', '`', '(', ')', '[', ']', '{', '}', '<', '>', ',', ';', '|', ':',
    ];
    assert(all[0] == ' ' && all[1] == '\t' && all[2] == '"' && all[3] == '\'' && all[4] == '`'
        && all[5] == '(' && all[6] == ')' && all[7] == '[' && all[8] == ']' && all[9] == '{'
        && all[10] == '}' && all[11] == '<' && all[12] == '>' && all[13] == ',' && all[14] == ';'
        && all[15] == '|' && all[16] == ':');
}

/// A cell that stands between words is selected alone, as is one beyond the screen.
pub proof fn law_cell_between_words(screen: ScreenModel, row: int, col: int)
    requires
        0 <= row,
        0 <= col,
        row >= screen.lines.len() || col >= screen.cols || delimits(
            screen.lines[row][col].grapheme,
        ),
    ensures
        word_bounds(screen, row, col) == (col, col),
{
}

/// The last column of a row that shows something shows something, and nothing
/// behind it does; in a row that shows nothing it is the first.
pub proof fn law_last_column_shown(cells: Seq<CellModel>)
    ensures
        forall|k: int|
            last_shown(cells) < k < cells.len() ==> (#[trigger] cells[k]).grapheme.len() == 0
                || cells[k].grapheme == " "@,
        cells.len() > 0 ==> 0 <= last_shown(cells) < cells.len(),
        last_shown(cells) > 0 ==> cells[last_shown(cells)].grapheme.len() > 0 && cells[last_shown(
            cells,
        )].grapheme != " "@,
        cells.len() == 0 ==> last_shown(cells) == 0,
    decreases cells.len(),
{
    if cells.len() > 0 {
        let rest = cells.drop_last();
        law_last_column_shown(rest);
        assert forall|k: int| last_shown(cells) < k < cells.len() implies (
        #[trigger] cells[k]).grapheme.len() == 0 || cells[k].grapheme == " "@ by {
            if k < rest.len() {
                assert(rest[k] == cells[k]);
            }
        }
    }
}

/// Selecting all goes to the last column of the view, or beyond it as far as the last
/// row shows something.
pub proof fn law_all_is_selected_to_the_end(screen: ScreenModel, last_row: int, cols: int)
    requires
        0 <= last_row,
        cols > 0,
    ensures
        last_col_selected(screen, last_row, cols) >= cols - 1,
        last_row < screen.lines.len() ==> last_col_selected(screen, last_row, cols) >= last_shown(
            screen.lines[last_row],
        ),
        last_col_selected(screen, last_row, cols) > cols - 1 ==> last_row < screen.lines.len()
            && last_col_selected(screen, last_row, cols) == last_shown(screen.lines[last_row]),
{
}

/// The ends of a selection in reading order are its two ends, the earlier one first,
/// whichever way it was made.
pub proof fn law_ends_in_reading_order(sel: Selection)
    ensures
        ordered_ends(sel) == (sel.start, sel.end) || ordered_ends(sel) == (sel.end, sel.start),
        ordered_ends(sel).0.0 <= ordered_ends(sel).1.0,
        ordered_ends(sel).0.0 == ordered_ends(sel).1.0 ==> ordered_ends(sel).0.1 <= ordered_ends(
            sel,
        ).1.1,
        ordered_ends(sel) == ordered_ends(Selection { start: sel.end, end: sel.start, ..sel }),
{
}

/// A row is drawn again exactly where it changed after a count, or its changes are
/// not counted.
pub proof fn law_changed_rows(m: ScreenModel, row: int, earlier: u64, later: u64)
    requires
        0 <= row,
        earlier <= later,
    ensures
        row_changed(m, row, later) ==> row_changed(m, row, earlier),
        row < m.row_generations.len() ==> !row_changed(m, row, m.row_generations[row]),
        row < m.row_generations.len() && earlier < m.row_generations[row] ==> row_changed(
            m,
            row,
            earlier,
        ),
        row >= m.row_generations.len() ==> row_changed(m, row, earlier),
{
}

// ---------------------------------------------------------------------------
// The pointer
// ---------------------------------------------------------------------------
/// What a press of a button leads to: the right one opens the menu with the address
/// under the pointer; the left one with control alone opens that address; one on a
/// copy button copies; one of the left button else selects, or goes to the program
/// where that wants the mouse and shift is not held.
pub proof fn law_what_a_press_leads_to(s: PointerState, p: Press, screen: ScreenModel)
    ensures
        ({
            let step = press_step(s, p, screen);
            let over = url_at(screen, p.row as int, p.col as int);
            &&& step is ContextMenu <==> p.button == 3
            &&& step matches PressStepModel::ContextMenu { url, has_selection } ==> (url is Some
                <==> over is Some) && (url is Some ==> url->0 == over->0.url) && (has_selection
                <==> s.selection is Some)
            &&& step is OpenUrl <==> p.button == 1 && p.ctrl && !p.shift && !p.mouse_tracking
                && over is Some
            &&& step matches PressStepModel::OpenUrl(url) ==> url == over->0.url
            &&& step is CopyBlock ==> p.button == 1 && p.n_press == 1 && p.copy_button == Some(true)
            &&& p.button == 1 && p.n_press == 1 && p.copy_button == Some(true) && !(step is OpenUrl)
                ==> step is CopyBlock
            &&& p.button == 1 && p.n_press == 1 && p.copy_button == Some(false) && !(
            step is OpenUrl) ==> step is Nothing
            &&& p.button != 1 && p.button != 3 ==> step is Nothing
            &&& step is Encode ==> p.button == 1 && p.mouse_tracking && !p.shift
            &&& step is Redraw ==> p.button == 1 && (!p.mouse_tracking || p.shift)
            &&& p.button == 1 && (p.n_press != 1 || p.copy_button is None) ==> step is OpenUrl
                || step is Redraw || step is Encode
        }),
{
}

/// What a press selects: the second of a series the word under the pointer, the third
/// the row as far as it shows something, each in the row of the scrollback that lies
/// there; a single one with shift moves the end of the selection there is, and one
/// without forgets it.
pub proof fn law_what_a_press_selects(s: PointerState, p: Press, screen: ScreenModel)
    requires
        p.row + p.offset <= usize::MAX,
    ensures
        ({
            let n = pressed(s, p, screen);
            let row = (p.row + p.offset) as usize;
            let word = word_bounds(screen, p.row as int, p.col as int);
            &&& p.n_press == 1 && p.shift && s.selection is Some ==> n.selection is Some
                && n.selection->0.start == s.selection->0.start && n.selection->0.end == (row, p.col)
                && n.selection->0.mode == s.selection->0.mode && !n.selecting
            &&& p.n_press == 1 && !(p.shift && s.selection is Some) ==> n.selection is None
                && n.selecting && n.drag_origin == Some((row, p.col)) && n.word_anchor is None
            &&& p.n_press == 2 ==> n.selection is Some && n.selection->0.mode == SelectionMode::Word
                && n.selection->0.start == (row, word.0 as usize) && n.selection->0.end == (
                row,
                word.1 as usize,
            ) && n.selecting && n.word_anchor == Some((word.0 as usize, word.1 as usize))
            &&& p.n_press == 3 ==> n.selection is Some && n.selection->0.mode == SelectionMode::Line
                && n.selection->0.start == (row, 0usize) && n.selection->0.end.0 == row
                && !n.selecting && n.word_anchor is None
            &&& p.n_press == 3 && p.row < screen.lines.len() ==> n.selection->0.end.1 == last_shown(
                screen.lines[p.row as int],
            ) as usize
            &&& p.n_press == 3 && p.row >= screen.lines.len() ==> n.selection->0.end.1 == 0
            &&& p.n_press < 1 || p.n_press > 3 ==> n == s
        }),
{
}

/// A drag moves the end of the selection to the cell under the pointer, or to the far
/// end of the word there; where it passes over the word at which it began, that word
/// stays in from its other side. The start stays in its row, and so does the way of
/// selecting.
pub proof fn law_what_a_drag_selects(
    s: PointerState,
    row: usize,
    col: usize,
    offset: usize,
    screen: ScreenModel,
)
    requires
        row + offset <= usize::MAX,
        s.selection is Some,
    ensures
        ({
            let n = dragged(s, row, col, offset, screen);
            let old_sel = s.selection->0;
            let new_sel = n.selection->0;
            let at = (row + offset) as usize;
            let word = word_bounds(screen, row as int, col as int);
            &&& n.selection is Some
            &&& new_sel.mode == old_sel.mode
            &&& new_sel.end.0 == at
            &&& new_sel.start.0 == old_sel.start.0
            &&& old_sel.mode != SelectionMode::Word ==> new_sel.end.1 == col && new_sel.start
                == old_sel.start
            &&& old_sel.mode == SelectionMode::Word ==> new_sel.end.1 == word.0 as usize
                || new_sel.end.1 == word.1 as usize
            &&& old_sel.mode == SelectionMode::Word && s.word_anchor is Some ==> {
                let a = s.word_anchor->0;
                &&& at > old_sel.start.0 ==> new_sel.start.1 == a.0 && new_sel.end.1
                    == word.1 as usize
                &&& at < old_sel.start.0 ==> new_sel.start.1 == a.1 && new_sel.end.1
                    == word.0 as usize
                &&& at == old_sel.start.0 && word.0 as usize >= a.0 ==> new_sel.start.1 == a.0
                    && new_sel.end.1 == word.1 as usize
                &&& at == old_sel.start.0 && (word.0 as usize) < a.0 ==> new_sel.start.1 == a.1
                    && new_sel.end.1 == word.0 as usize
            }
            &&& n.selecting == s.selecting
            &&& n.word_anchor == s.word_anchor
        }),
{
}

/// Letting go of the button ends the drag and keeps what was selected, but for a
/// selection of one cell that was not made by words or rows.
pub proof fn law_what_letting_go_keeps(s: PointerState)
    ensures
        !released(s).selecting,
        released(s).word_anchor is None,
        released(s).drag_origin is None,
        released(s).selection is Some ==> released(s).selection == s.selection,
        s.selection is Some && released(s).selection is None ==> s.selection->0.start
            == s.selection->0.end && s.selection->0.mode == SelectionMode::Normal,
        s.selection is Some && s.selection->0.start == s.selection->0.end && s.selection->0.mode
            == SelectionMode::Normal ==> released(s).selection is None,
{
}

/// The block under the pointer is the first of the blocks that has the cell, and
/// there is one where any has it.
pub proof fn law_block_under_the_pointer(blocks: Seq<CodeBlock>, row: usize, col: usize)
    ensures
        block_at(blocks, row, col) is None <==> forall|i: int|
            0 <= i < blocks.len() ==> !covers_cell(#[trigger] blocks[i], row, col),
        block_at(blocks, row, col) is Some ==> exists|i: int|
            0 <= i < blocks.len() && (#[trigger] blocks[i]) == block_at(blocks, row, col)->0
                && covers_cell(blocks[i], row, col) && forall|j: int|
                0 <= j < i ==> !covers_cell(#[trigger] blocks[j], row, col),
    decreases blocks.len(),
{
    if blocks.len() > 0 {
        let rest = blocks.skip(1);
        law_block_under_the_pointer(rest, row, col);
        assert forall|i: int| 0 <= i < rest.len() implies #[trigger] rest[i] == blocks[i + 1] by {}
        if block_has(blocks[0], row, col) {
            assert(covers_cell(blocks[0], row, col));
        } else {
            assert(!covers_cell(blocks[0], row, col));
            if block_at(rest, row, col) is None {
                assert forall|i: int| 0 <= i < blocks.len() implies !covers_cell(
                    #[trigger] blocks[i],
                    row,
                    col,
                ) by {
                    if i > 0 {
                        assert(rest[i - 1] == blocks[i]);
                    }
                }
            } else {
                let i = choose|i: int|
                    0 <= i < rest.len() && (#[trigger] rest[i]) == block_at(rest, row, col)->0
                        && covers_cell(rest[i], row, col) && forall|j: int|
                        0 <= j < i ==> !covers_cell(#[trigger] rest[j], row, col);
                assert(blocks[i + 1] == rest[i]);
                assert forall|j: int| 0 <= j < i + 1 implies !covers_cell(
                    #[trigger] blocks[j],
                    row,
                    col,
                ) by {
                    if j > 0 {
                        assert(rest[j - 1] == blocks[j]);
                    }
                }
            }
        }
    }
}

/// Whether a block takes in a cell, with its border.
pub open spec fn covers_cell(b: CodeBlock, row: usize, col: usize) -> bool {
    &&& row >= b.top_row && row <= b.bottom_row
    &&& col >= b.left_col && col <= b.right_col
}

/// A pointer that comes to another cell is over the address there, and over the block
/// there where the program leaves the screen to the terminal; what was found of blocks
/// is kept until the screen changes. Within a cell nothing changes.
pub proof fn law_what_the_pointer_is_over(
    m: HoverStateModel,
    at: Motion,
    screen: ScreenModel,
    found: Seq<CodeBlock>,
)
    ensures
        ({
            let n = moved_to(m, at, screen, found);
            let same = m.last_hover_cell == (at.row, at.col);
            let plain = !at.mouse_tracking && !at.alternate_screen;
            &&& same ==> n == m
            &&& n.last_hover_cell == (at.row, at.col)
            &&& !same ==> n.hover_url == url_at(screen, at.row as int, at.col as int)
            &&& !same && !plain ==> n.hovered_code_block is None && n.detected_code_blocks
                == m.detected_code_blocks && n.code_blocks_generation == m.code_blocks_generation
            &&& !same && plain ==> n.code_blocks_generation == screen.generation
            &&& !same && plain && screen.generation != m.code_blocks_generation
                ==> n.detected_code_blocks == found
            &&& !same && plain && screen.generation == m.code_blocks_generation
                ==> n.detected_code_blocks == m.detected_code_blocks
            &&& !same && plain && m.last_hover_block_cell != (at.row, at.col)
                ==> n.hovered_code_block == block_at(n.detected_code_blocks, at.row, at.col)
            &&& !same && plain ==> n.last_hover_block_cell == (at.row, at.col)
            &&& motion_step_of(m, n).redraw <==> !(n.hover_url == m.hover_url
                && n.hovered_code_block == m.hovered_code_block)
            &&& motion_step_of(m, n).hand is Some ==> motion_step_of(m, n).hand->0
                == n.hover_url is Some
            &&& motion_step_of(m, n).hand is None <==> n.hover_url == m.hover_url
        }),
{
}

// ---------------------------------------------------------------------------
// Keys
// ---------------------------------------------------------------------------
/// What a key does: the shortcuts of the window go to the window, whatever is
/// selected; control with C copies what is selected, and interrupts where nothing is;
/// escape clears the selection where the program does not want the mouse; all else is
/// for the program. With all three modifiers held nothing is a shortcut.
pub proof fn law_what_a_key_does(
    key: KeySym,
    held: Held,
    has_selection: bool,
    mouse_tracking: bool,
)
    ensures
        ({
            let step = key_step_for(key, held, has_selection, mouse_tracking);
            let is_c = key == KeySym::Char('c') || key == KeySym::Char('C');
            let ctrl_alone = held.ctrl && !held.shift && !held.alt;
            &&& step is Propagate <==> app_shortcut(key, held)
            &&& step is Copy <==> ctrl_alone && is_c && has_selection
            &&& step is Interrupt <==> ctrl_alone && is_c && !has_selection
            &&& step is ClearSelection <==> key is Escape && has_selection && !mouse_tracking
            &&& held.ctrl && held.shift && held.alt ==> !app_shortcut(key, held)
            &&& held.shift && !held.ctrl && !held.alt ==> !app_shortcut(key, held)
            &&& !held.ctrl && !held.shift && !held.alt && app_shortcut(key, held) ==> key is F1
            &&& key is Escape || key is Return || key is Other ==> !app_shortcut(key, held)
            &&& key is F1 ==> (app_shortcut(key, held) <==> !held.ctrl && !held.shift && !held.alt)
            &&& key is Left || key is Right || key is Up || key is Down ==> (app_shortcut(key, held)
                <==> held.alt && !held.ctrl && !held.shift)
            &&& key is PageUp || key is PageDown ==> (app_shortcut(key, held) <==> held.ctrl
                && held.alt && !held.shift)
        }),
{
}

/// The characters that are shortcuts of the window, by what is held with them: each
/// letter in both cases.
pub proof fn law_shortcut_characters(c: char)
    ensures
        app_shortcut(KeySym::Char(c), Held { ctrl: true, shift: false, alt: false }) <==> seq![
            'v', 'V', '=', '+', '-', '0', ',',
        ].contains(c),
        app_shortcut(KeySym::Char(c), Held { ctrl: true, shift: true, alt: false }) <==> seq![
            'w', 'W', 'c', 'C', 'f', 'F', 'v', 'V', '=', '+', '?', '/',
        ].contains(c),
        app_shortcut(KeySym::Char(c), Held { ctrl: false, shift: true, alt: true }) <==> seq![
            '=', '+', '-', '_',
        ].contains(c),
        app_shortcut(KeySym::Char(c), Held { ctrl: true, shift: false, alt: true }) <==> seq![
            'n', 'N', 'w', 'W', '1', '2', '3', '4', '5', '6', '7', '8', '9',
        ].contains(c),
        !app_shortcut(KeySym::Char(c), Held { ctrl: false, shift: false, alt: true }),
{
    let a = seq!['v', 'V', '=', '+', '-', '0', ','];
    assert(a[0] == 'v' && a[1] == 'V' && a[2] == '=' && a[3] == '+' && a[4] == '-' && a[5] == '0'
        && a[6] == ',');
    let b = seq!['w', 'W', 'c', 'C', 'f', 'F', 'v', 'V', '=', '+', '?', '/'];
    assert(b[0] == 'w' && b[1] == 'W' && b[2] == 'c' && b[3] == 'C' && b[4] == 'f' && b[5] == 'F'
        && b[6] == 'v' && b[7] == 'V' && b[8] == '=' && b[9] == '+' && b[10] == '?' && b[11]
        == '/');
    let d = seq!['=', '+', '-', '_'];
    assert(d[0] == '=' && d[1] == '+' && d[2] == '-' && d[3] == '_');
    let e = seq!['n', 'N', 'w', 'W', '1', '2', '3', '4', '5', '6', '7', '8', '9'];
    assert(e[0] == 'n' && e[1] == 'N' && e[2] == 'w' && e[3] == 'W' && e[4] == '1' && e[5] == '2'
        && e[6] == '3' && e[7] == '4' && e[8] == '5' && e[9] == '6' && e[10] == '7' && e[11] == '8'
        && e[12] == '9');
}

/// How long things last, in thousandths of a second: bells stay quiet after an interrupt
/// for longer than they keep from each other, a flash is over before the next can begin,
/// and memory is given back after five seconds without output.
pub proof fn law_how_long_things_last()
    ensures
        BELL_FLASH < BELL_COOLDOWN < INTERRUPT_QUIET < COPY_CONFIRMED < NOTIFICATION_COOLDOWN
            < IDLE_BEFORE_TRIM,
        BELL_COOLDOWN == 200 && BELL_FLASH == 150 && INTERRUPT_QUIET == 300,
        COPY_CONFIRMED == 1500 && NOTIFICATION_COOLDOWN == 2000 && IDLE_BEFORE_TRIM == 5000,
{
}

} // verus!
