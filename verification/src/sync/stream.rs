//! The protocol by which a device follows a pane: messages in both directions,
//! what answers which, and how screens and scrollback are put into lines.

use vstd::prelude::*;

use crate::ids::{uuid_named, uuid_of_text, uuid_text, PaneId, Uuid};
use crate::seqs::{lemma_first_at, lemma_take_one_more};
use crate::session::events::{EventModel, SessionEvent};
use crate::session::layout::{tree_contains_pane, tree_has, SessionLayout};
use crate::session::manager::SessionManager;
use crate::session::model::{active_ok, pane_ids, registered, session_ok, SessionModel};
use crate::socket::framing::{
    first_frame, frame, law_frame_round_trip, length_bytes, read_frame, MAX_FRAME_SIZE,
};
use crate::sync::registry::{authorized, DeviceRegistry};
use crate::text::{chars_of, join2, text_of};
use crate::vt::{cells_model, rows_model, Cell, CellModel, Screen, ScreenModel};

verus! {

/// Most lines of scrollback in one answer.
pub const MAX_SCROLLBACK_PAGE: usize = 500;

// ---------------------------------------------------------------------------
// Messages
// ---------------------------------------------------------------------------
/// What a device is told of a pane.
#[derive(Debug, PartialEq, Eq)]
pub struct WirePaneInfo {
    /// The id as text.
    pub id: String,
    pub title: String,
    /// The working directory.
    pub cwd: String,
    /// The branch that is checked out there; empty.
    pub git_branch: String,
    /// The command that runs; empty.
    pub running_cmd: String,
    /// Whether the pane stands in the active tab of the active workspace.
    pub is_active: bool,
}

/// The same as a mathematical value.
pub ghost struct WirePaneModel {
    pub id: Seq<char>,
    pub title: Seq<char>,
    pub cwd: Seq<char>,
    pub git_branch: Seq<char>,
    pub running_cmd: Seq<char>,
    pub is_active: bool,
}

impl View for WirePaneInfo {
    type V = WirePaneModel;

    open spec fn view(&self) -> WirePaneModel {
        WirePaneModel {
            id: self.id@,
            title: self.title@,
            cwd: self.cwd@,
            git_branch: self.git_branch@,
            running_cmd: self.running_cmd@,
            is_active: self.is_active,
        }
    }
}

/// A message of a device.
#[derive(Debug, PartialEq, Eq)]
pub enum ClientMsg {
    /// Follow a pane. The first message on a stream.
    Subscribe { pane_id: String },
    /// List the panes. The first and only message on a stream.
    ListPanes,
    /// Stop following.
    Unsubscribe,
    /// Send a page of scrollback.
    RequestScrollback { pane_id: String, from_row: i32, count: u32 },
    /// Write to a pane.
    SendInput { pane_id: String, data: Vec<u8> },
}

/// A message to a device.
#[derive(Debug, PartialEq, Eq)]
pub enum DaemonMsg {
    /// What a pane shows, one text for every row.
    FullSnapshot {
        pane_id: String,
        rows: u16,
        cols: u16,
        lines: Vec<String>,
        cursor_row: usize,
        cursor_col: usize,
    },
    /// What a pane put out.
    PtyBytes { pane_id: String, data: Vec<u8> },
    /// A page of scrollback.
    ScrollbackPage { pane_id: String, from_row: i32, lines: Vec<String> },
    /// The pane is gone.
    PaneGone { pane_id: String },
    /// The panes there are.
    PaneList { panes: Vec<WirePaneInfo> },
    /// The request cannot be met.
    Error { message: String },
}

/// The same as a mathematical value.
pub ghost enum DaemonModel {
    FullSnapshot {
        pane_id: Seq<char>,
        rows: u16,
        cols: u16,
        lines: Seq<Seq<char>>,
        cursor_row: usize,
        cursor_col: usize,
    },
    PtyBytes { pane_id: Seq<char>, data: Seq<u8> },
    ScrollbackPage { pane_id: Seq<char>, from_row: i32, lines: Seq<Seq<char>> },
    PaneGone { pane_id: Seq<char> },
    PaneList { panes: Seq<WirePaneModel> },
    Error { message: Seq<char> },
}

/// Texts as mathematical values.
pub open spec fn lines_model(lines: Seq<String>) -> Seq<Seq<char>> {
    Seq::new(lines.len(), |i: int| lines[i]@)
}

proof fn lemma_lines_push(lines: Seq<String>, line: String)
    ensures
        lines_model(lines.push(line)) == lines_model(lines).push(line@),
{
    assert(lines_model(lines.push(line)) =~= lines_model(lines).push(line@));
}

/// Panes as mathematical values.
pub open spec fn wire_panes_model(panes: Seq<WirePaneInfo>) -> Seq<WirePaneModel> {
    Seq::new(panes.len(), |i: int| panes[i]@)
}

impl View for DaemonMsg {
    type V = DaemonModel;

    open spec fn view(&self) -> DaemonModel {
        match *self {
            DaemonMsg::FullSnapshot { pane_id, rows, cols, lines, cursor_row, cursor_col } =>
                DaemonModel::FullSnapshot {
                    pane_id: pane_id@,
                    rows,
                    cols,
                    lines: lines_model(lines@),
                    cursor_row,
                    cursor_col,
                },
            DaemonMsg::PtyBytes { pane_id, data } => DaemonModel::PtyBytes {
                pane_id: pane_id@,
                data: data@,
            },
            DaemonMsg::ScrollbackPage { pane_id, from_row, lines } => DaemonModel::ScrollbackPage {
                pane_id: pane_id@,
                from_row,
                lines: lines_model(lines@),
            },
            DaemonMsg::PaneGone { pane_id } => DaemonModel::PaneGone { pane_id: pane_id@ },
            DaemonMsg::PaneList { panes } => DaemonModel::PaneList {
                panes: wire_panes_model(panes@),
            },
            DaemonMsg::Error { message } => DaemonModel::Error { message: message@ },
        }
    }
}

// ---------------------------------------------------------------------------
// Messages as bytes
// ---------------------------------------------------------------------------
/// A message with its length before it.
pub fn encode_message(payload: &[u8]) -> (bytes: Vec<u8>)
    ensures
        bytes@ == length_bytes((payload@.len() % 0x1_0000_0000) as nat) + payload@,
{
    let n: u32 = (payload.len() as u64 % 0x1_0000_0000) as u32;
    let mut bytes: Vec<u8> = Vec::new();
    bytes.push((n / 16777216) as u8);
    bytes.push((n / 65536 % 256) as u8);
    bytes.push((n / 256 % 256) as u8);
    bytes.push((n % 256) as u8);
    bytes.extend_from_slice(payload);
    assert(bytes@ =~= length_bytes((payload@.len() % 0x1_0000_0000) as nat) + payload@);
    bytes
}

/// The first message in some bytes. A message is neither empty nor larger than
/// a frame may be.
pub open spec fn first_message(src: Seq<u8>) -> Option<Seq<u8>> {
    match first_frame(src) {
        Ok(payload) => if payload.len() > 0 {
            Some(payload)
        } else {
            None
        },
        Err(_) => None,
    }
}

/// Reads the first message in some bytes.
pub fn decode_message(src: &[u8]) -> (payload: Option<Vec<u8>>)
    ensures
        match payload {
            Some(p) => first_message(src@) == Some(p@),
            None => first_message(src@) is None,
        },
{
    let mut buf: Vec<u8> = Vec::new();
    match read_frame(src, &mut buf) {
        Err(_) => None,
        Ok(_) => {
            if buf.len() == 0 {
                None
            } else {
                Some(buf)
            }
        },
    }
}

/// Whether a message of this length is read at all.
pub fn message_length_ok(len: usize) -> (ok: bool)
    ensures
        ok == (0 < len <= MAX_FRAME_SIZE),
{
    len > 0 && len <= MAX_FRAME_SIZE
}

/// A message is read back as it was written, unless it is empty or too large.
pub proof fn law_message_round_trip(payload: Seq<u8>)
    requires
        0 < payload.len() <= MAX_FRAME_SIZE,
    ensures
        first_message(length_bytes((payload.len() % 0x1_0000_0000) as nat) + payload) == Some(
            payload,
        ),
{
    let n: nat = payload.len();
    assert(n % 0x1_0000_0000 == n);
    assert(length_bytes((n % 0x1_0000_0000) as nat) + payload == frame(payload));
    law_frame_round_trip(payload, Seq::empty());
    assert(frame(payload) + Seq::<u8>::empty() =~= frame(payload));
}

// ---------------------------------------------------------------------------
// Lines
// ---------------------------------------------------------------------------
/// The texts of cells, one behind the other.
pub open spec fn row_text(cells: Seq<CellModel>) -> Seq<char>
    decreases cells.len(),
{
    if cells.len() == 0 {
        Seq::empty()
    } else {
        row_text(cells.drop_last()) + cells.last().grapheme
    }
}

/// A text without the spaces at its end.
pub open spec fn without_end_spaces(s: Seq<char>) -> Seq<char>
    decreases s.len(),
{
    if s.len() > 0 && s.last() == ' ' {
        without_end_spaces(s.drop_last())
    } else {
        s
    }
}

/// A text of exactly a width: with spaces behind it where it is shorter, and
/// without what is beyond.
pub open spec fn fitted(s: Seq<char>, width: nat) -> Seq<char> {
    Seq::new(
        width,
        |i: int|
            if i < s.len() {
                s[i]
            } else {
                ' '
            },
    )
}

/// The first cells of a row, at most `n`.
pub open spec fn first_cells(cells: Seq<CellModel>, n: nat) -> Seq<CellModel> {
    if cells.len() <= n {
        cells
    } else {
        cells.take(n as int)
    }
}

/// The line of a snapshot for a row.
pub open spec fn snapshot_line(cells: Seq<CellModel>, cols: nat) -> Seq<char> {
    fitted(row_text(first_cells(cells, cols)), cols)
}

/// The lines of a snapshot.
pub open spec fn snapshot_lines(screen: ScreenModel) -> Seq<Seq<char>> {
    Seq::new(screen.lines.len(), |r: int| snapshot_line(screen.lines[r], screen.cols))
}

/// A line of a snapshot is exactly as wide as the screen, whatever its cells
/// hold. It holds the text of the row, but for the spaces at its end, wherever
/// that is not wider than the screen.
pub proof fn law_snapshot_line_is_as_wide_as_the_screen(cells: Seq<CellModel>, cols: nat)
    ensures
        snapshot_line(cells, cols).len() == cols,
        without_end_spaces(row_text(first_cells(cells, cols))).len() <= cols ==> without_end_spaces(
            snapshot_line(cells, cols),
        ) == without_end_spaces(row_text(first_cells(cells, cols))),
{
    let text = row_text(first_cells(cells, cols));
    let line = snapshot_line(cells, cols);
    let kept = without_end_spaces(text);
    lemma_end_spaces(text);
    if kept.len() <= cols {
        lemma_kept(line, kept.len() as int);
        assert(line.take(kept.len() as int) =~= kept);
    }
}

/// The text of a row is that of its cells, from left to right.
pub proof fn law_row_text(a: Seq<CellModel>, b: Seq<CellModel>, c: CellModel)
    ensures
        row_text(Seq::empty()).len() == 0,
        row_text(a + b) == row_text(a) + row_text(b),
        row_text(seq![c]) == c.grapheme,
    decreases b.len(),
{
    reveal_with_fuel(row_text, 2);
    assert(seq![c].drop_last() =~= Seq::empty());
    assert(row_text(seq![c]) =~= c.grapheme);
    if b.len() == 0 {
        assert(a + b =~= a);
        assert(row_text(a) + row_text(b) =~= row_text(a));
    } else {
        law_row_text(a, b.drop_last(), c);
        assert((a + b).drop_last() =~= a + b.drop_last());
        assert((a + b).last() == b.last());
        assert(row_text(a + b) =~= row_text(a) + row_text(b));
    }
}

/// A snapshot tells the pane, the size and the cursor as they are, and has one
/// line for each row of the screen, in which the first cells of the row stand,
/// as many as the screen has columns.
pub proof fn law_snapshot_shows_the_screen(pane: PaneId, screen: ScreenModel, cursor: (usize, usize))
    ensures
        snapshot_of(pane, Ok((screen, cursor))) matches DaemonModel::FullSnapshot {
            pane_id,
            rows,
            cols,
            lines,
            cursor_row,
            cursor_col,
        } && {
            &&& pane_id == uuid_text(pane.0.value)
            &&& screen.lines.len() < 65536 ==> rows == screen.lines.len()
            &&& screen.cols < 65536 ==> cols == screen.cols
            &&& (cursor_row, cursor_col) == cursor
            &&& lines.len() == screen.lines.len()
            &&& forall|r: int, i: int|
                #![trigger lines[r][i]]
                0 <= r < lines.len() && 0 <= i < screen.cols ==> lines[r].len() == screen.cols
                    && lines[r][i] == {
                    let row = screen.lines[r];
                    let text = row_text(
                        if row.len() <= screen.cols {
                            row
                        } else {
                            row.take(screen.cols as int)
                        },
                    );
                    if i < text.len() {
                        text[i]
                    } else {
                        ' '
                    }
                }
        },
{
}

/// What is cut off at the end of a text are spaces, and all of them.
pub proof fn lemma_end_spaces(s: Seq<char>)
    ensures
        without_end_spaces(s).len() <= s.len(),
        without_end_spaces(s) == s.take(without_end_spaces(s).len() as int),
        forall|i: int| without_end_spaces(s).len() <= i < s.len() ==> s[i] == ' ',
        without_end_spaces(s).len() > 0 ==> s[without_end_spaces(s).len() - 1] != ' ',
    decreases s.len(),
{
    if s.len() > 0 && s.last() == ' ' {
        let rest = s.drop_last();
        lemma_end_spaces(rest);
        assert forall|i: int| without_end_spaces(s).len() <= i < s.len() implies s[i] == ' ' by {
            if i < rest.len() {
                assert(rest[i] == s[i]);
            }
        }
    } else {
        assert(s.take(s.len() as int) =~= s);
    }
}

/// Where only spaces come after the first `k` characters, and no space stands
/// last among these, they are what is left without the spaces at the end.
proof fn lemma_kept(s: Seq<char>, k: int)
    requires
        0 <= k <= s.len(),
        forall|i: int| k <= i < s.len() ==> s[i] == ' ',
        k > 0 ==> s[k - 1] != ' ',
    ensures
        without_end_spaces(s) == s.take(k),
    decreases s.len(),
{
    if k < s.len() {
        lemma_kept(s.drop_last(), k);
        assert(s.drop_last().take(k) =~= s.take(k));
    } else {
        assert(s.take(k) =~= s);
    }
}

fn push_chars(out: &mut Vec<char>, s: &str)
    ensures
        final(out)@ == old(out)@ + s@,
{
    let chars = chars_of(s);
    let mut i: usize = 0;
    while i < chars.len()
        invariant
            i <= chars@.len(),
            chars@ == s@,
            out@ == old(out)@ + s@.take(i as int),
        decreases chars@.len() - i,
    {
        out.push(chars[i]);
        i = i + 1;
        assert(s@.take(i as int) =~= s@.take(i - 1).push(s@[i - 1]));
        assert(out@ =~= old(out)@ + s@.take(i as int));
    }
    assert(s@.take(i as int) =~= s@);
}

/// The texts of the first `limit` cells of a row.
fn row_chars(cells: &Vec<Cell>, limit: usize) -> (chars: Vec<char>)
    ensures
        chars@ == row_text(first_cells(cells_model(cells@), limit as nat)),
{
    let mut out: Vec<char> = Vec::new();
    let n: usize = if cells.len() < limit {
        cells.len()
    } else {
        limit
    };
    let ghost model = cells_model(cells@);
    let mut i: usize = 0;
    while i < n
        invariant
            i <= n,
            n <= cells@.len(),
            model == cells_model(cells@),
            out@ == row_text(model.take(i as int)),
        decreases n - i,
    {
        push_chars(&mut out, cells[i].grapheme.as_str());
        i = i + 1;
        assert(model.take(i as int).drop_last() =~= model.take(i - 1));
    }
    assert(model.take(i as int) =~= first_cells(model, limit as nat));
    out
}

fn drop_end_spaces(chars: &mut Vec<char>)
    ensures
        final(chars)@ == without_end_spaces(old(chars)@),
{
    while chars.len() > 0 && chars[chars.len() - 1] == ' '
        invariant
            without_end_spaces(chars@) == without_end_spaces(old(chars)@),
        decreases chars@.len(),
    {
        let ghost before = chars@;
        let _ = chars.pop();
        assert(chars@ =~= before.drop_last());
    }
}

/// Cuts a text, or fills it up with spaces, to a width.
fn fit(chars: &mut Vec<char>, width: usize)
    ensures
        final(chars)@ == fitted(old(chars)@, width as nat),
{
    let ghost before = chars@;
    if chars.len() > width {
        chars.truncate(width);
        assert(chars@ =~= fitted(before, width as nat));
        return;
    }
    while chars.len() < width
        invariant
            before.len() <= chars@.len() <= width,
            chars@ == fitted(before, chars@.len()),
        decreases width - chars@.len(),
    {
        chars.push(' ');
        assert(chars@ =~= fitted(before, chars@.len()));
    }
}

/// The snapshot of a pane, or the error that came where its screen could not be
/// read.
pub open spec fn snapshot_of(
    pane: PaneId,
    read: Result<(ScreenModel, (usize, usize)), Seq<char>>,
) -> DaemonModel {
    match read {
        Ok((screen, cursor)) => DaemonModel::FullSnapshot {
            pane_id: uuid_text(pane.0.value),
            rows: (screen.lines.len() % 65536) as u16,
            cols: (screen.cols % 65536) as u16,
            lines: snapshot_lines(screen),
            cursor_row: cursor.0,
            cursor_col: cursor.1,
        },
        Err(words) => DaemonModel::Error { message: "failed to read VT: "@ + words },
    }
}

/// The screen and the cursor of a pane as they were read.
pub open spec fn screen_read(read: Result<(&Screen, (usize, usize)), String>) -> Result<
    (ScreenModel, (usize, usize)),
    Seq<char>,
> {
    match read {
        Ok((screen, cursor)) => Ok((screen@, cursor)),
        Err(words) => Err(words@),
    }
}

/// Builds the snapshot of a pane from its screen and its cursor.
pub fn build_snapshot(pane_id: PaneId, read: Result<(&Screen, (usize, usize)), String>) -> (msg:
    DaemonMsg)
    ensures
        msg@ == snapshot_of(pane_id, screen_read(read)),
{
    match read {
        Err(words) => DaemonMsg::Error { message: join2("failed to read VT: ", words.as_str()) },
        Ok((screen, cursor)) => {
            let rows: usize = screen.rows();
            let cols: usize = screen.cols();
            let mut lines: Vec<String> = Vec::new();
            let mut r: usize = 0;
            while r < rows
                invariant
                    r <= rows,
                    rows == screen@.lines.len(),
                    cols == screen@.cols,
                    lines_model(lines@) == snapshot_lines(screen@).take(r as int),
                decreases rows - r,
            {
                let mut chars = row_chars(screen.row(r), cols);
                fit(&mut chars, cols);
                let line = text_of(chars.as_slice());
                proof {
                    lemma_lines_push(lines@, line);
                    lemma_take_one_more(snapshot_lines(screen@), r as int);
                }
                lines.push(line);
                r = r + 1;
            }
            assert(lines_model(lines@) =~= snapshot_lines(screen@));
            DaemonMsg::FullSnapshot {
                pane_id: pane_id.to_text(),
                rows: (rows % 65536) as u16,
                cols: (cols % 65536) as u16,
                lines,
                cursor_row: cursor.0,
                cursor_col: cursor.1,
            }
        },
    }
}

/// The first row of a page of scrollback of `len` rows. A negative row counts
/// back from the newest; no row beyond the ends is asked for.
pub open spec fn page_start(len: nat, from_row: int) -> int {
    if from_row < 0 {
        if -from_row >= len {
            0
        } else {
            len + from_row
        }
    } else if from_row < len {
        from_row
    } else {
        len - 1
    }
}

/// The number of rows of a page.
pub open spec fn page_len(len: nat, from_row: int, count: nat) -> nat {
    let wanted = if count <= MAX_SCROLLBACK_PAGE {
        count
    } else {
        MAX_SCROLLBACK_PAGE as nat
    };
    let left = (len - page_start(len, from_row)) as nat;
    if wanted <= left {
        wanted
    } else {
        left
    }
}

/// The lines of a page of scrollback.
pub open spec fn page_lines(rows: Seq<Seq<CellModel>>, from_row: int, count: nat) -> Seq<Seq<char>> {
    if rows.len() == 0 {
        Seq::empty()
    } else {
        Seq::new(
            page_len(rows.len(), from_row, count),
            |i: int| without_end_spaces(row_text(rows[page_start(rows.len(), from_row) + i])),
        )
    }
}

/// A page never holds more than the limit, and all its rows are there.
pub proof fn law_page_within_scrollback(len: nat, from_row: int, count: nat)
    requires
        len > 0,
    ensures
        page_len(len, from_row, count) <= MAX_SCROLLBACK_PAGE,
        page_len(len, from_row, count) <= count,
        0 <= page_start(len, from_row) < len,
        page_start(len, from_row) + page_len(len, from_row, count) <= len,
        count > 0 ==> page_len(len, from_row, count) > 0,
{
}

/// The smallest of three.
pub open spec fn least(a: int, b: int, c: int) -> int {
    if a <= b && a <= c {
        a
    } else if b <= c {
        b
    } else {
        c
    }
}

/// A page of scrollback begins at the row that was asked for, counted from the
/// oldest row where it is not negative and back from the newest where it is, and
/// shows the rows from there on, each without the spaces at its end: as many as
/// were asked for, as far as there are so many and the limit allows. Beyond the
/// oldest row it begins there, beyond the newest it is the newest.
pub proof fn law_page_holds_the_rows_asked_for(
    rows: Seq<Seq<CellModel>>,
    from_row: int,
    count: nat,
)
    ensures
        rows.len() == 0 ==> page_lines(rows, from_row, count).len() == 0,
        ({
            let len = rows.len() as int;
            let lines = page_lines(rows, from_row, count);
            let limit = MAX_SCROLLBACK_PAGE as int;
            &&& 0 <= from_row < len ==> {
                &&& lines.len() == least(count as int, limit, len - from_row)
                &&& forall|i: int|
                    0 <= i < lines.len() ==> #[trigger] lines[i] == without_end_spaces(
                        row_text(rows[from_row + i]),
                    )
            }
            &&& 0 < -from_row <= len ==> {
                &&& lines.len() == least(count as int, limit, -from_row)
                &&& forall|i: int|
                    0 <= i < lines.len() ==> #[trigger] lines[i] == without_end_spaces(
                        row_text(rows[len + from_row + i]),
                    )
            }
            &&& -from_row > len ==> {
                &&& lines.len() == least(count as int, limit, len)
                &&& forall|i: int|
                    0 <= i < lines.len() ==> #[trigger] lines[i] == without_end_spaces(
                        row_text(rows[i]),
                    )
            }
            &&& from_row >= len > 0 ==> {
                &&& lines.len() == least(count as int, limit, 1)
                &&& lines.len() > 0 ==> lines[0] == without_end_spaces(row_text(rows.last()))
            }
        }),
{
}

/// A row counted back from the newest is the same as the one counted from the
/// oldest, and a page goes on where the one before it ends.
pub proof fn law_pages_fit_together(
    rows: Seq<Seq<CellModel>>,
    from_row: int,
    count: nat,
    more: nat,
)
    requires
        0 <= from_row,
        from_row + count < rows.len(),
        count + more <= MAX_SCROLLBACK_PAGE,
    ensures
        page_lines(rows, from_row - rows.len(), count) == page_lines(rows, from_row, count),
        page_lines(rows, from_row, count) + page_lines(rows, from_row + count, more) == page_lines(
            rows,
            from_row,
            count + more,
        ),
{
    law_page_holds_the_rows_asked_for(rows, from_row, count);
    law_page_holds_the_rows_asked_for(rows, from_row - rows.len(), count);
    law_page_holds_the_rows_asked_for(rows, from_row + count, more);
    law_page_holds_the_rows_asked_for(rows, from_row, count + more);
    assert(page_lines(rows, from_row - rows.len(), count) =~= page_lines(rows, from_row, count));
    assert(page_lines(rows, from_row, count) + page_lines(rows, from_row + count, more)
        =~= page_lines(rows, from_row, count + more));
}

/// The answer to a request for scrollback.
pub open spec fn scrollback_page_of(
    pane: PaneId,
    read: Result<Seq<Seq<CellModel>>, Seq<char>>,
    from_row: i32,
    count: u32,
) -> DaemonModel {
    match read {
        Ok(rows) => DaemonModel::ScrollbackPage {
            pane_id: uuid_text(pane.0.value),
            from_row,
            lines: page_lines(rows, from_row as int, count as nat),
        },
        Err(words) => DaemonModel::Error { message: "failed to read scrollback: "@ + words },
    }
}

/// The scrollback of a pane as it was read.
pub open spec fn scrollback_read(read: Result<&Vec<Vec<Cell>>, String>) -> Result<
    Seq<Seq<CellModel>>,
    Seq<char>,
> {
    match read {
        Ok(rows) => Ok(rows_model(rows@)),
        Err(words) => Err(words@),
    }
}

/// The answer names the pane and repeats the row that was asked for.
pub proof fn law_page_answers_the_request(
    pane: PaneId,
    rows: Seq<Seq<CellModel>>,
    from_row: i32,
    count: u32,
)
    ensures
        scrollback_page_of(pane, Ok(rows), from_row, count) matches DaemonModel::ScrollbackPage {
            pane_id,
            from_row: repeated,
            lines,
        } && pane_id == uuid_text(pane.0.value) && repeated == from_row && lines == page_lines(
            rows,
            from_row as int,
            count as nat,
        ),
{
}

/// Builds a page of scrollback from all of it.
pub fn build_scrollback_page(
    pane_id: PaneId,
    read: Result<&Vec<Vec<Cell>>, String>,
    from_row: i32,
    count: u32,
) -> (msg: DaemonMsg)
    ensures
        msg@ == scrollback_page_of(pane_id, scrollback_read(read), from_row, count),
{
    let rows = match read {
        Err(words) => {
            return DaemonMsg::Error {
                message: join2("failed to read scrollback: ", words.as_str()),
            };
        },
        Ok(rows) => rows,
    };
    let len: usize = rows.len();
    let mut lines: Vec<String> = Vec::new();
    let ghost model = rows_model(rows@);
    let ghost all = page_lines(model, from_row as int, count as nat);
    if len > 0 {
        let start: usize = if from_row < 0 {
            let offset: u64 = (-(from_row as i64)) as u64;
            if offset >= len as u64 {
                0
            } else {
                len - offset as usize
            }
        } else if (from_row as u64) < len as u64 {
            from_row as usize
        } else {
            len - 1
        };
        let wanted: usize = if count as u64 <= MAX_SCROLLBACK_PAGE as u64 {
            count as usize
        } else {
            MAX_SCROLLBACK_PAGE
        };
        let n: usize = if wanted <= len - start {
            wanted
        } else {
            len - start
        };
        let mut i: usize = 0;
        while i < n
            invariant
                i <= n,
                n == all.len(),
                start + n <= len,
                len == rows@.len(),
                len > 0,
                model == rows_model(rows@),
                all == page_lines(model, from_row as int, count as nat),
                start == page_start(len as nat, from_row as int),
                lines_model(lines@) == all.take(i as int),
            decreases n - i,
        {
            let cells = &rows[start + i];
            let mut chars = row_chars(cells, cells.len());
            assert(first_cells(cells_model(cells@), cells@.len()) =~= cells_model(cells@));
            drop_end_spaces(&mut chars);
            let line = text_of(chars.as_slice());
            proof {
                assert(model[start + i] == cells_model(cells@));
                lemma_lines_push(lines@, line);
                lemma_take_one_more(all, i as int);
            }
            lines.push(line);
            i = i + 1;
        }
    }
    assert(lines_model(lines@) =~= all);
    DaemonMsg::ScrollbackPage { pane_id: pane_id.to_text(), from_row, lines }
}

// ---------------------------------------------------------------------------
// The panes of a session
// ---------------------------------------------------------------------------
/// Whether a pane stands in the active tab of the active workspace.
pub open spec fn shown_pane(m: SessionModel, pane: PaneId) -> bool {
    let ws = m.layout.workspaces;
    if ws.len() == 0 {
        false
    } else {
        let w = ws[at_most(m.layout.active_workspace as int, ws.len() - 1)];
        if w.tabs.len() == 0 {
            false
        } else {
            tree_has(w.tabs[at_most(w.active_tab as int, w.tabs.len() - 1)].pane_tree, pane)
        }
    }
}

/// The smaller of two.
pub open spec fn at_most(i: int, limit: int) -> int {
    if i <= limit {
        i
    } else {
        limit
    }
}

/// What devices are told of the panes of a session.
pub open spec fn wire_panes(m: SessionModel) -> Seq<WirePaneModel> {
    Seq::new(
        m.panes.len(),
        |i: int|
            WirePaneModel {
                id: uuid_text(m.panes[i].id.0.value),
                title: m.panes[i].title,
                cwd: m.panes[i].cwd,
                git_branch: Seq::empty(),
                running_cmd: Seq::empty(),
                is_active: shown_pane(m, m.panes[i].id),
            },
    )
}

/// Devices are told of every pane, in the order of the session, with its id,
/// title and directory, and of each whether it stands in the tab that is shown.
pub proof fn law_devices_see_every_pane(m: SessionModel, i: int)
    requires
        session_ok(m),
        0 <= i < m.panes.len(),
    ensures
        wire_panes(m).len() == m.panes.len(),
        wire_panes(m)[i].id == uuid_text(m.panes[i].id.0.value),
        wire_panes(m)[i].title == m.panes[i].title,
        wire_panes(m)[i].cwd == m.panes[i].cwd,
        ({
            let ws = m.layout.workspaces[m.layout.active_workspace as int];
            wire_panes(m)[i].is_active <==> ws.tabs.len() > 0 && tree_has(
                ws.tabs[ws.active_tab as int].pane_tree,
                m.panes[i].id,
            )
        }),
{
    assert(active_ok(m.layout.workspaces[m.layout.active_workspace as int]));
}

fn in_shown_tab(layout: &SessionLayout, pane: PaneId) -> (b: bool)
    ensures
        forall|m: SessionModel| m.layout == layout@ ==> b == #[trigger] shown_pane(m, pane),
{
    if layout.workspaces.len() == 0 {
        return false;
    }
    let last: usize = layout.workspaces.len() - 1;
    let w: usize = if layout.active_workspace <= last {
        layout.active_workspace
    } else {
        last
    };
    let ws = &layout.workspaces[w];
    assert(layout@.workspaces[w as int] == ws@);
    if ws.tabs.len() == 0 {
        return false;
    }
    let last_tab: usize = ws.tabs.len() - 1;
    let t: usize = if ws.active_tab <= last_tab {
        ws.active_tab
    } else {
        last_tab
    };
    assert(ws@.tabs[t as int] == ws.tabs[t as int]@);
    tree_contains_pane(&ws.tabs[t].pane_tree, pane)
}

/// Lists the panes of a session.
pub fn build_pane_list(sm: &SessionManager) -> (panes: Vec<WirePaneInfo>)
    requires
        sm.wf(),
    ensures
        wire_panes_model(panes@) == wire_panes(sm@),
{
    let ids = sm.list_panes();
    let layout = sm.layout();
    let mut panes: Vec<WirePaneInfo> = Vec::new();
    let mut i: usize = 0;
    while i < ids.len()
        invariant
            i <= ids@.len(),
            sm.wf(),
            ids@ == pane_ids(sm@.panes),
            layout@ == sm@.layout,
            wire_panes_model(panes@) == wire_panes(sm@).take(i as int),
        decreases ids@.len() - i,
    {
        let id = ids[i];
        let ghost before = panes@;
        proof {
            lemma_first_at(pane_ids(sm@.panes), id, i as int);
            assert(sm@.panes[i as int].id == id);
            assert(pane_ids(sm@.panes).contains(id));
            lemma_take_one_more(wire_panes(sm@), i as int);
        }
        if let Some(info) = sm.pane_info(id) {
            let is_active = in_shown_tab(&layout, id);
            assert(is_active == shown_pane(sm@, id));
            panes.push(
                WirePaneInfo {
                    id: id.to_text(),
                    title: info.title,
                    cwd: info.cwd,
                    git_branch: String::new(),
                    running_cmd: String::new(),
                    is_active,
                },
            );
        }
        assert(wire_panes_model(panes@) =~= wire_panes_model(before).push(wire_panes(sm@)[i as int]));
        i = i + 1;
    }
    assert(wire_panes_model(panes@) =~= wire_panes(sm@));
    panes
}

// ---------------------------------------------------------------------------
// Connections and streams
// ---------------------------------------------------------------------------
/// What becomes of a connection.
#[derive(Debug, PartialEq, Eq)]
pub enum Gate {
    /// Its streams are served; at the end it is closed with code 0 and `done`.
    Serve,
    /// The message is sent and the connection closed with the code and reason.
    Refuse { msg: DaemonMsg, code: u8, reason: &'static str },
}

/// Decides whether a device is served.
pub fn stream_gate(registry: &DeviceRegistry, device_id: &str) -> (g: Gate)
    ensures
        if authorized(registry@, device_id@) {
            g is Serve
        } else {
            g matches Gate::Refuse { msg, code, reason } && msg@ == (DaemonModel::Error {
                message: "not_authorized"@,
            }) && code == 1 && reason@ == "not-authorized"@
        },
{
    if registry.is_authorized(device_id) {
        Gate::Serve
    } else {
        Gate::Refuse {
            msg: DaemonMsg::Error { message: "not_authorized".to_owned() },
            code: 1,
            reason: "not-authorized",
        }
    }
}

/// What becomes of a stream after its first message.
#[derive(Debug, PartialEq, Eq)]
pub enum Opening {
    /// The message is sent and the stream finished.
    Answer(DaemonMsg),
    /// The pane is followed: its snapshot is sent, then what it puts out.
    Follow(PaneId),
    /// Nothing came; the stream is dropped.
    Drop,
}

/// The same as a mathematical value.
pub ghost enum OpeningModel {
    Answer(DaemonModel),
    Follow(PaneId),
    Drop,
}

impl View for Opening {
    type V = OpeningModel;

    open spec fn view(&self) -> OpeningModel {
        match *self {
            Opening::Answer(msg) => OpeningModel::Answer(msg@),
            Opening::Follow(pane) => OpeningModel::Follow(pane),
            Opening::Drop => OpeningModel::Drop,
        }
    }
}

/// What becomes of a request to follow a pane.
pub open spec fn following(m: SessionModel, pane_id: Seq<char>) -> OpeningModel {
    match uuid_named(uuid_of_text(pane_id)) {
        None => OpeningModel::Answer(
            DaemonModel::Error { message: "invalid pane_id UUID: "@ + pane_id },
        ),
        Some(id) => if registered(m.panes, PaneId(id)) {
            OpeningModel::Follow(PaneId(id))
        } else {
            OpeningModel::Answer(DaemonModel::Error { message: "pane not found: "@ + pane_id })
        },
    }
}

/// What becomes of a stream after its first message: only a request to list the
/// panes or to follow one may come first.
pub open spec fn opening(m: SessionModel, first: Option<ClientMsg>) -> OpeningModel {
    match first {
        None => OpeningModel::Drop,
        Some(ClientMsg::ListPanes) => OpeningModel::Answer(
            DaemonModel::PaneList { panes: wire_panes(m) },
        ),
        Some(ClientMsg::Subscribe { pane_id }) => following(m, pane_id@),
        Some(_) => OpeningModel::Answer(
            DaemonModel::Error { message: "expected Subscribe or ListPanes as first message"@ },
        ),
    }
}

/// Decides what becomes of a stream after its first message.
pub fn open_stream(first: &Option<ClientMsg>, sm: &SessionManager) -> (o: Opening)
    requires
        sm.wf(),
    ensures
        o@ == opening(sm@, *first),
{
    match first {
        None => Opening::Drop,
        Some(msg) => match msg {
            ClientMsg::ListPanes => Opening::Answer(
                DaemonMsg::PaneList { panes: build_pane_list(sm) },
            ),
            ClientMsg::Subscribe { pane_id } => match Uuid::parse_str(pane_id.as_str()) {
                None => Opening::Answer(
                    DaemonMsg::Error { message: join2("invalid pane_id UUID: ", pane_id.as_str()) },
                ),
                Some(id) => {
                    if sm.has_pane(PaneId(id)) {
                        Opening::Follow(PaneId(id))
                    } else {
                        Opening::Answer(
                            DaemonMsg::Error {
                                message: join2("pane not found: ", pane_id.as_str()),
                            },
                        )
                    }
                },
            },
            _ => Opening::Answer(
                DaemonMsg::Error {
                    message: "expected Subscribe or ListPanes as first message".to_owned(),
                },
            ),
        },
    }
}

/// What a message on a stream that follows a pane asks for.
#[derive(Debug, PartialEq, Eq)]
pub enum Wish {
    /// The stream ends.
    End,
    /// A page of scrollback.
    Scrollback { pane_id: PaneId, from_row: i32, count: u32 },
    /// Bytes for a pane. Where they cannot be written, nothing is said.
    Input { pane_id: PaneId, data: Vec<u8> },
    /// Nothing.
    Ignore,
}

/// The pane that a message means: the one it names, or else the one followed.
pub open spec fn meant_pane(followed: PaneId, text: Seq<char>) -> PaneId {
    match uuid_named(uuid_of_text(text)) {
        Some(id) => PaneId(id),
        None => followed,
    }
}

fn pane_meant(followed: PaneId, text: &str) -> (pane: PaneId)
    ensures
        pane == meant_pane(followed, text@),
{
    match Uuid::parse_str(text) {
        Some(id) => PaneId(id),
        None => followed,
    }
}

/// Decides what a message on a stream that follows a pane asks for. No message
/// means that the device closed the stream.
pub fn client_wish(followed: PaneId, msg: Option<ClientMsg>) -> (w: Wish)
    ensures
        match msg {
            None => w is End,
            Some(ClientMsg::Unsubscribe) => w is End,
            Some(ClientMsg::RequestScrollback { pane_id, from_row, count }) => w
                == (Wish::Scrollback { pane_id: meant_pane(followed, pane_id@), from_row, count }),
            Some(ClientMsg::SendInput { pane_id, data }) => w == (Wish::Input {
                pane_id: meant_pane(followed, pane_id@),
                data,
            }),
            Some(ClientMsg::Subscribe { .. }) => w is Ignore,
            Some(ClientMsg::ListPanes) => w is Ignore,
        },
{
    match msg {
        None => Wish::End,
        Some(msg) => match msg {
            ClientMsg::Unsubscribe => Wish::End,
            ClientMsg::RequestScrollback { pane_id, from_row, count } => Wish::Scrollback {
                pane_id: pane_meant(followed, pane_id.as_str()),
                from_row,
                count,
            },
            ClientMsg::SendInput { pane_id, data } => Wish::Input {
                pane_id: pane_meant(followed, pane_id.as_str()),
                data,
            },
            ClientMsg::Subscribe { .. } => Wish::Ignore,
            ClientMsg::ListPanes => Wish::Ignore,
        },
    }
}

/// What a stream gets from the session.
#[derive(Debug, PartialEq, Eq)]
pub enum Received {
    Event(SessionEvent),
    /// Events were lost because the device was too slow.
    Lagged,
    /// The session ends.
    Closed,
}

/// What a stream that follows a pane does next.
#[derive(Debug, PartialEq, Eq)]
pub enum FollowStep {
    /// Send this.
    Send(DaemonMsg),
    /// Send this and end.
    SendAndEnd(DaemonMsg),
    /// Send a new snapshot of the pane.
    Resnapshot,
    /// Wait on.
    Wait,
    /// End.
    End,
}

/// The same as a mathematical value.
pub ghost enum FollowStepModel {
    Send(DaemonModel),
    SendAndEnd(DaemonModel),
    Resnapshot,
    Wait,
    End,
}

impl View for FollowStep {
    type V = FollowStepModel;

    open spec fn view(&self) -> FollowStepModel {
        match *self {
            FollowStep::Send(msg) => FollowStepModel::Send(msg@),
            FollowStep::SendAndEnd(msg) => FollowStepModel::SendAndEnd(msg@),
            FollowStep::Resnapshot => FollowStepModel::Resnapshot,
            FollowStep::Wait => FollowStepModel::Wait,
            FollowStep::End => FollowStepModel::End,
        }
    }
}

/// What a stream that follows a pane does for an event of the session.
pub open spec fn follow_step_for(followed: PaneId, event: EventModel) -> FollowStepModel {
    match event {
        EventModel::PtyOutput { pane_id, data } => if pane_id == followed {
            FollowStepModel::Send(
                DaemonModel::PtyBytes { pane_id: uuid_text(followed.0.value), data },
            )
        } else {
            FollowStepModel::Wait
        },
        EventModel::PaneClosed { pane_id } => if pane_id == followed {
            FollowStepModel::SendAndEnd(
                DaemonModel::PaneGone { pane_id: uuid_text(followed.0.value) },
            )
        } else {
            FollowStepModel::Wait
        },
        _ => FollowStepModel::Wait,
    }
}

/// A stream that follows a pane sends what that pane puts out, all of it and
/// nothing else, and ends with a last word when the pane is closed and at no
/// other event.
pub proof fn law_follower_gets_its_pane_alone(
    followed: PaneId,
    pane: PaneId,
    data: Seq<u8>,
    other: EventModel,
)
    ensures
        ({
            let step = follow_step_for(followed, EventModel::PtyOutput { pane_id: pane, data });
            if pane == followed {
                step matches FollowStepModel::Send(DaemonModel::PtyBytes { pane_id, data: sent })
                    && sent == data && pane_id == uuid_text(followed.0.value)
            } else {
                step is Wait
            }
        }),
        ({
            let step = follow_step_for(followed, EventModel::PaneClosed { pane_id: pane });
            if pane == followed {
                step matches FollowStepModel::SendAndEnd(DaemonModel::PaneGone { pane_id })
                    && pane_id == uuid_text(followed.0.value)
            } else {
                step is Wait
            }
        }),
        !(other is PtyOutput) && !(other is PaneClosed) ==> follow_step_for(followed, other)
            is Wait,
{
}

/// A stream is opened for the pane that it names by its id, where that pane is
/// alive, and for no other; only a list of panes or a pane to follow may come
/// first.
pub proof fn law_opening_follows_the_pane_named(m: SessionModel, first: Option<ClientMsg>, pane: PaneId)
    ensures
        opening(m, first) == OpeningModel::Follow(pane) <==> registered(m.panes, pane) && (
        first matches Some(ClientMsg::Subscribe { pane_id }) && uuid_of_text(pane_id@) == Some(
            pane.0.value,
        )),
        opening(m, first) is Drop <==> first is None,
        first == Some(ClientMsg::ListPanes) ==> opening(m, first) == OpeningModel::Answer(
            DaemonModel::PaneList { panes: wire_panes(m) },
        ),
        first is Some && !(first->0 is Subscribe) && !(first->0 is ListPanes) ==> (opening(m, first)
            is Answer && opening(m, first)->Answer_0 is Error),
{
}

/// What a message means by a pane is the one whose id it gives, whatever pane is
/// followed.
pub proof fn law_message_means_the_pane_it_names(followed: PaneId, other: PaneId, text: Seq<char>, pane: PaneId)
    requires
        uuid_of_text(text) == Some(pane.0.value),
    ensures
        meant_pane(followed, text) == pane,
        meant_pane(followed, text) == meant_pane(other, text),
{
}

/// Decides what a stream that follows a pane does next. One that lagged behind
/// is not closed: it starts anew with a snapshot.
pub fn follow_step(followed: PaneId, received: &Received) -> (s: FollowStep)
    ensures
        s@ == match *received {
            Received::Event(e) => follow_step_for(followed, e@),
            Received::Lagged => FollowStepModel::Resnapshot,
            Received::Closed => FollowStepModel::End,
        },
{
    match received {
        Received::Event(event) => match event {
            SessionEvent::PtyOutput { pane_id, data } => {
                if *pane_id == followed {
                    let mut copy: Vec<u8> = Vec::new();
                    copy.extend_from_slice(data.as_slice());
                    assert(copy@ =~= data@);
                    FollowStep::Send(
                        DaemonMsg::PtyBytes { pane_id: followed.to_text(), data: copy },
                    )
                } else {
                    FollowStep::Wait
                }
            },
            SessionEvent::PaneClosed { pane_id } => {
                if *pane_id == followed {
                    FollowStep::SendAndEnd(DaemonMsg::PaneGone { pane_id: followed.to_text() })
                } else {
                    FollowStep::Wait
                }
            },
            _ => FollowStep::Wait,
        },
        Received::Lagged => FollowStep::Resnapshot,
        Received::Closed => FollowStep::End,
    }
}

/// A page never holds more than five hundred lines, and holds as many as are asked for up
/// to that, where there are so many from its start on.
pub proof fn law_largest_page(rows: Seq<Seq<CellModel>>, from_row: int, count: nat)
    requires
        0 <= from_row < rows.len(),
    ensures
        page_lines(rows, from_row, count).len() <= 500,
        count >= 500 && from_row + 500 <= rows.len() ==> page_lines(rows, from_row, count).len()
            == 500,
        count <= 500 && from_row + count <= rows.len() ==> page_lines(rows, from_row, count).len()
            == count,
        from_row + count > rows.len() && rows.len() - from_row <= 500 ==> page_lines(
            rows,
            from_row,
            count,
        ).len() == rows.len() - from_row,
{
}

} // verus!
