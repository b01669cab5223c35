//! The state of a pane on the screen: its size and place in the scrollback, the
//! blinking cursor, bells, notifications, and what was typed or scrolled.
//!
//! Moments are milliseconds on a clock that only runs forward.

use vstd::prelude::*;

use crate::terminal::pointer::PointerState;

verus! {

/// What a bell does.
#[derive(Clone, Copy, Debug, PartialEq, Eq, Structural)]
pub enum BellMode {
    Visual,
    Audio,
    Both,
    Silent,
}

/// How long after a bell no other counts.
pub const BELL_COOLDOWN: u64 = 200;

/// How long the pane flashes for a bell.
pub const BELL_FLASH: u64 = 150;

/// How long after an interrupt a bell is suppressed.
pub const INTERRUPT_QUIET: u64 = 300;

/// How long after a notification on the desktop there is no other.
pub const NOTIFICATION_COOLDOWN: u64 = 2000;

/// How long a copy is confirmed.
pub const COPY_CONFIRMED: u64 = 1500;

/// After how long without output freed memory is given back.
pub const IDLE_BEFORE_TRIM: u64 = 5000;

/// The state of a pane on the screen.
#[derive(Clone, Copy, Debug, PartialEq, Eq)]
pub struct ViewState {
    pub cols: usize,
    pub rows: usize,
    pub pointer: PointerState,
    /// For how many ticks after a resize the selection is not cleared.
    pub suppress_selection_clear_ticks: u8,
    /// Whether the scroll bar is being moved by the pane itself.
    pub updating_scrollbar: bool,
    /// Whether the user has scrolled away from the bottom, by wheel or scroll
    /// bar. Cleared at the bottom and by typing.
    pub scroll_lock: bool,
    /// The row of the scrollback at which the view starts.
    pub viewport_offset: u64,
    pub cursor_blink_visible: bool,
    pub last_blink_toggle: u64,
    pub was_alternate_screen: bool,
    pub bell_flash_until: Option<u64>,
    pub last_bell: u64,
    pub suppress_bell_until: Option<u64>,
    pub last_pty_data: u64,
    pub malloc_trimmed: bool,
    /// Whether the pane has a ring around it for a notification.
    pub notification_ring: bool,
    pub last_notification: u64,
    pub copy_confirmed_until: Option<u64>,
    pub bell_mode: BellMode,
    /// Whether notifications are wanted.
    pub notifications: bool,
}

/// How long ago a moment was.
pub open spec fn since(now: u64, then: u64) -> int {
    if now >= then {
        now - then
    } else {
        0
    }
}

fn elapsed(now: u64, then: u64) -> (t: u64)
    ensures
        t == since(now, then),
{
    if now >= then {
        now - then
    } else {
        0
    }
}

/// Whether a moment lies before one that is set.
pub open spec fn before(now: u64, until: Option<u64>) -> bool {
    match until {
        Some(t) => now < t,
        None => false,
    }
}

fn is_before(now: u64, until: Option<u64>) -> (b: bool)
    ensures
        b == before(now, until),
{
    match until {
        Some(t) => now < t,
        None => false,
    }
}

// ---------------------------------------------------------------------------
// Bells
// ---------------------------------------------------------------------------
/// Whether a bell at a moment counts: not too soon after another, and not
/// suppressed.
pub open spec fn rings(v: ViewState, at: u64) -> bool {
    since(at, v.last_bell) >= BELL_COOLDOWN && !before(at, v.suppress_bell_until)
}

/// Whether bells flash.
pub open spec fn flashes(mode: BellMode) -> bool {
    mode is Visual || mode is Both
}

/// Whether bells sound.
pub open spec fn sounds(mode: BellMode) -> bool {
    mode is Audio || mode is Both
}

/// The state after a bell. One that is suppressed uses the suppression up.
pub open spec fn after_bell(v: ViewState, at: u64, focused: bool) -> ViewState {
    if since(at, v.last_bell) < BELL_COOLDOWN {
        v
    } else if before(at, v.suppress_bell_until) {
        ViewState { suppress_bell_until: None, ..v }
    } else {
        ViewState {
            last_bell: at,
            bell_flash_until: if flashes(v.bell_mode) {
                Some((at + BELL_FLASH) as u64)
            } else {
                v.bell_flash_until
            },
            notification_ring: v.notification_ring || (!focused && v.notifications),
            ..v
        }
    }
}

/// The state after several bells.
pub open spec fn after_bells(v: ViewState, bells: Seq<u64>, focused: bool) -> ViewState
    decreases bells.len(),
{
    if bells.len() == 0 {
        v
    } else {
        after_bell(after_bells(v, bells.drop_last(), focused), bells.last(), focused)
    }
}

/// How many of several bells count.
pub open spec fn bells_rung(v: ViewState, bells: Seq<u64>, focused: bool) -> nat
    decreases bells.len(),
{
    if bells.len() == 0 {
        0
    } else {
        bells_rung(v, bells.drop_last(), focused) + if rings(
            after_bells(v, bells.drop_last(), focused),
            bells.last(),
        ) {
            1nat
        } else {
            0nat
        }
    }
}

/// Two bells that both count are never closer than the cooldown.
pub proof fn law_bells_keep_their_distance(v: ViewState, first: u64, second: u64, focused: bool)
    requires
        rings(v, first),
        rings(after_bell(v, first, focused), second),
    ensures
        since(second, first) >= BELL_COOLDOWN,
{
}

// ---------------------------------------------------------------------------
// Output
// ---------------------------------------------------------------------------
/// What came of output: when, what it left the terminal in, and what it rang.
#[derive(Debug, PartialEq, Eq)]
pub struct Output {
    pub now: u64,
    /// Where the view started before the output.
    pub offset: u64,
    /// Whether the alternate screen is shown now.
    pub alternate_screen: bool,
    /// The moments of the bells in it.
    pub bells: Vec<u64>,
    /// Whether it held a notification.
    pub notice: bool,
    /// Whether the pane has the focus.
    pub focused: bool,
}

/// What output leads to.
#[derive(Clone, Copy, Debug, PartialEq, Eq, Structural)]
pub struct OutputStep {
    /// Give the cursor its usual shape back: the alternate screen was left.
    pub reset_cursor: bool,
    /// How often the bell sounds.
    pub audio_bells: usize,
    /// Draw again when the flash is over.
    pub flash: bool,
    /// Notify of a bell.
    pub bell_notice: bool,
    /// Notify of the notification in the output.
    pub osc_notice: bool,
    /// Whether the desktop may be notified.
    pub desktop: bool,
    /// Move the view to the bottom.
    pub to_bottom: bool,
}

/// What output leads to.
pub open spec fn output_step_of(v: ViewState, o: Output) -> OutputStep {
    let rung = bells_rung(v, o.bells@, o.focused);
    OutputStep {
        reset_cursor: v.was_alternate_screen && !o.alternate_screen,
        audio_bells: if sounds(v.bell_mode) {
            rung as usize
        } else {
            0
        },
        flash: rung > 0 && flashes(v.bell_mode),
        bell_notice: rung > 0 && !o.focused && v.notifications,
        osc_notice: o.notice && !o.focused && v.notifications,
        desktop: since(o.now, v.last_notification) >= NOTIFICATION_COOLDOWN,
        to_bottom: !v.scroll_lock,
    }
}

/// The state after output.
pub open spec fn after_output(v: ViewState, o: Output) -> ViewState {
    let step = output_step_of(v, o);
    let rung = after_bells(v, o.bells@, o.focused);
    ViewState {
        viewport_offset: o.offset,
        last_pty_data: o.now,
        malloc_trimmed: false,
        was_alternate_screen: o.alternate_screen,
        notification_ring: rung.notification_ring || step.osc_notice,
        last_notification: if step.desktop && (step.bell_notice || step.osc_notice) {
            o.now
        } else {
            v.last_notification
        },
        ..rung
    }
}

/// Two notifications that both reach the desktop are never closer than the
/// cooldown.
pub proof fn law_notices_keep_their_distance(v: ViewState, first: Output, second: Output)
    requires
        output_step_of(v, first).desktop,
        output_step_of(v, first).bell_notice || output_step_of(v, first).osc_notice,
        output_step_of(after_output(v, first), second).desktop,
    ensures
        since(second.now, first.now) >= NOTIFICATION_COOLDOWN,
{
}

proof fn lemma_after_bells_keep(v: ViewState, bells: Seq<u64>, focused: bool)
    ensures
        after_bells(v, bells, focused).bell_mode == v.bell_mode,
        after_bells(v, bells, focused).notifications == v.notifications,
        after_bells(v, bells, focused).last_notification == v.last_notification,
        after_bells(v, bells, focused).scroll_lock == v.scroll_lock,
        bells_rung(v, bells, focused) <= bells.len(),
    decreases bells.len(),
{
    if bells.len() > 0 {
        lemma_after_bells_keep(v, bells.drop_last(), focused);
    }
}

/// The notification of a program in a pane.
#[derive(Clone, Copy, Debug, PartialEq, Eq, Structural)]
pub enum NotificationSource {
    Osc9,
    Osc99,
    Osc777,
}

/// A notification.
#[derive(Debug, PartialEq, Eq)]
pub struct NotificationPayload {
    pub title: String,
    pub body: String,
    pub pane_name: String,
    /// Where it comes from. None for a bell, and for one that is not to reach
    /// the desktop.
    pub source: Option<NotificationSource>,
}

/// The notification of a bell.
pub fn bell_payload(pane_name: &str) -> (p: NotificationPayload)
    ensures
        p.title@.len() == 0,
        p.body@.len() == 0,
        p.pane_name@ == pane_name@,
        p.source is None,
{
    NotificationPayload {
        title: String::new(),
        body: String::new(),
        pane_name: pane_name.to_owned(),
        source: None,
    }
}

/// The name of a source.
pub open spec fn source_word(s: NotificationSource) -> Seq<char> {
    match s {
        NotificationSource::Osc9 => "Osc9"@,
        NotificationSource::Osc99 => "Osc99"@,
        NotificationSource::Osc777 => "Osc777"@,
    }
}

/// Fills in the pane of a notification. Returns the name of its source where the
/// daemon is to be told of it, and the notification itself. One that comes too
/// soon after another goes to neither the daemon nor the desktop.
pub fn osc_payload(payload: NotificationPayload, pane_name: &str, desktop: bool) -> (r: (
    Option<&'static str>,
    NotificationPayload,
))
    ensures
        r.1.title@ == payload.title@,
        r.1.body@ == payload.body@,
        r.1.pane_name@ == pane_name@,
        r.1.source == if desktop {
            payload.source
        } else {
            None
        },
        match payload.source {
            Some(s) if desktop => r.0 matches Some(word) && word@ == source_word(s),
            _ => r.0 is None,
        },
{
    let word = match payload.source {
        Some(s) => if desktop {
            match s {
                NotificationSource::Osc9 => Some("Osc9"),
                NotificationSource::Osc99 => Some("Osc99"),
                NotificationSource::Osc777 => Some("Osc777"),
            }
        } else {
            None
        },
        None => None,
    };
    let source = if desktop {
        payload.source
    } else {
        None
    };
    (
        word,
        NotificationPayload {
            title: payload.title,
            body: payload.body,
            pane_name: pane_name.to_owned(),
            source,
        },
    )
}

/// Whether the end of a pane's output closes the pane: the daemon is still
/// there, so it was the program that ended. Where the daemon itself is gone the
/// pane stays.
pub fn closes_at_stream_end(daemon_alive: Option<bool>) -> (b: bool)
    ensures
        b == (daemon_alive != Some(false)),
{
    match daemon_alive {
        Some(alive) => alive,
        None => true,
    }
}

/// A pane that has just been made. It is larger than any screen, so that the
/// first resize makes it smaller; bells and notifications count at once.
pub open spec fn fresh_view(now: u64, bell_mode: BellMode, notifications: bool) -> ViewState {
    ViewState {
        cols: 240,
        rows: 80,
        pointer: PointerState {
            selection: None,
            selecting: false,
            word_anchor: None,
            drag_origin: None,
        },
        suppress_selection_clear_ticks: 0,
        updating_scrollbar: false,
        scroll_lock: false,
        viewport_offset: 0,
        cursor_blink_visible: true,
        last_blink_toggle: now,
        was_alternate_screen: false,
        bell_flash_until: None,
        last_bell: (now - 1000) as u64,
        suppress_bell_until: None,
        last_pty_data: now,
        malloc_trimmed: false,
        notification_ring: false,
        last_notification: (now - 10000) as u64,
        copy_confirmed_until: None,
        bell_mode,
        notifications,
    }
}

impl ViewState {
    /// A pane that has just been made, at a moment of at least ten seconds.
    pub fn new(now: u64, bell_mode: BellMode, notifications: bool) -> (v: ViewState)
        requires
            now >= 10000,
        ensures
            v == fresh_view(now, bell_mode, notifications),
    {
        ViewState {
            cols: 240,
            rows: 80,
            pointer: PointerState::new(),
            suppress_selection_clear_ticks: 0,
            updating_scrollbar: false,
            scroll_lock: false,
            viewport_offset: 0,
            cursor_blink_visible: true,
            last_blink_toggle: now,
            was_alternate_screen: false,
            bell_flash_until: None,
            last_bell: now - 1000,
            suppress_bell_until: None,
            last_pty_data: now,
            malloc_trimmed: false,
            notification_ring: false,
            last_notification: now - 10000,
            copy_confirmed_until: None,
            bell_mode,
            notifications,
        }
    }

    fn bell(&mut self, at: u64, focused: bool) -> (rung: bool)
        requires
            at + BELL_FLASH <= u64::MAX,
        ensures
            rung == rings(*old(self), at),
            *final(self) == after_bell(*old(self), at, focused),
    {
        if elapsed(at, self.last_bell) < BELL_COOLDOWN {
            return false;
        }
        if is_before(at, self.suppress_bell_until) {
            self.suppress_bell_until = None;
            return false;
        }
        self.last_bell = at;
        let flash = match self.bell_mode {
            BellMode::Visual => true,
            BellMode::Both => true,
            _ => false,
        };
        if flash {
            self.bell_flash_until = Some(at + BELL_FLASH);
        }
        if !focused && self.notifications {
            self.notification_ring = true;
        }
        true
    }

    /// Takes output of the pane.
    pub fn output(&mut self, o: &Output) -> (step: OutputStep)
        requires
            forall|i: int| 0 <= i < o.bells@.len() ==> #[trigger] o.bells@[i] + BELL_FLASH
                <= u64::MAX,
        ensures
            step == output_step_of(*old(self), *o),
            *final(self) == after_output(*old(self), *o),
    {
        let reset_cursor = self.was_alternate_screen && !o.alternate_screen;
        let mut rung: usize = 0;
        let mut i: usize = 0;
        let ghost first = *self;
        while i < o.bells.len()
            invariant
                i <= o.bells@.len(),
                rung <= i,
                first == *old(self),
                forall|k: int| 0 <= k < o.bells@.len() ==> #[trigger] o.bells@[k] + BELL_FLASH
                    <= u64::MAX,
                *self == after_bells(first, o.bells@.take(i as int), o.focused),
                rung == bells_rung(first, o.bells@.take(i as int), o.focused),
            decreases o.bells@.len() - i,
        {
            assert(o.bells@.take(i + 1).drop_last() =~= o.bells@.take(i as int));
            if self.bell(o.bells[i], o.focused) {
                rung = rung + 1;
            }
            i = i + 1;
        }
        assert(o.bells@.take(i as int) =~= o.bells@);
        proof {
            lemma_after_bells_keep(first, o.bells@, o.focused);
        }
        let (flash, audio) = match self.bell_mode {
            BellMode::Visual => (true, false),
            BellMode::Audio => (false, true),
            BellMode::Both => (true, true),
            BellMode::Silent => (false, false),
        };
        let audio_bells: usize = if audio {
            rung
        } else {
            0
        };
        let bell_notice = rung > 0 && !o.focused && self.notifications;
        let osc_notice = o.notice && !o.focused && self.notifications;
        if osc_notice {
            self.notification_ring = true;
        }
        let desktop = elapsed(o.now, self.last_notification) >= NOTIFICATION_COOLDOWN;
        if desktop && (bell_notice || osc_notice) {
            self.last_notification = o.now;
        }
        self.viewport_offset = o.offset;
        self.last_pty_data = o.now;
        self.malloc_trimmed = false;
        self.was_alternate_screen = o.alternate_screen;
        OutputStep {
            reset_cursor,
            audio_bells,
            flash: rung > 0 && flash,
            bell_notice,
            osc_notice,
            desktop,
            to_bottom: !self.scroll_lock,
        }
    }

    /// Takes where the view starts now.
    pub fn view_moved(&mut self, offset: u64)
        ensures
            *final(self) == (ViewState { viewport_offset: offset, ..*old(self) }),
    {
        self.viewport_offset = offset;
    }

    /// The cursor blinks. Returns whether freed memory is to be given back:
    /// once for every time that nothing came for a while.
    pub fn blink_tick(&mut self, now: u64) -> (trim: bool)
        ensures
            trim == (!old(self).malloc_trimmed && since(now, old(self).last_pty_data)
                >= IDLE_BEFORE_TRIM),
            *final(self) == (ViewState {
                cursor_blink_visible: !old(self).cursor_blink_visible,
                last_blink_toggle: now,
                malloc_trimmed: old(self).malloc_trimmed || trim,
                ..*old(self)
            }),
    {
        self.cursor_blink_visible = !self.cursor_blink_visible;
        self.last_blink_toggle = now;
        if !self.malloc_trimmed && elapsed(now, self.last_pty_data) >= IDLE_BEFORE_TRIM {
            self.malloc_trimmed = true;
            true
        } else {
            false
        }
    }

    // -----------------------------------------------------------------------
    // Keys
    // -----------------------------------------------------------------------
    /// Takes that the program was interrupted; the view is at the bottom and
    /// starts at `offset`. The bell with which shells answer is suppressed.
    pub fn interrupted(&mut self, now: u64, offset: u64)
        requires
            now + INTERRUPT_QUIET <= u64::MAX,
        ensures
            *final(self) == (ViewState {
                viewport_offset: offset,
                scroll_lock: false,
                cursor_blink_visible: true,
                last_blink_toggle: now,
                suppress_bell_until: Some((now + INTERRUPT_QUIET) as u64),
                ..*old(self)
            }),
    {
        self.viewport_offset = offset;
        self.scroll_lock = false;
        self.cursor_blink_visible = true;
        self.last_blink_toggle = now;
        self.suppress_bell_until = Some(now + INTERRUPT_QUIET);
    }

    /// Takes that something was typed; the view is at the bottom and starts at
    /// `offset`. Returns whether that changes what is drawn already now.
    pub fn typed(&mut self, now: u64, offset: u64) -> (redraw: bool)
        ensures
            redraw == (old(self).scroll_lock || old(self).pointer.selection is Some),
            *final(self) == (ViewState {
                viewport_offset: offset,
                scroll_lock: false,
                pointer: PointerState {
                    selection: None,
                    selecting: false,
                    word_anchor: None,
                    drag_origin: None,
                },
                cursor_blink_visible: true,
                last_blink_toggle: now,
                ..*old(self)
            }),
    {
        let redraw = self.scroll_lock || self.pointer.selection.is_some();
        self.viewport_offset = offset;
        self.scroll_lock = false;
        self.pointer = PointerState::new();
        self.cursor_blink_visible = true;
        self.last_blink_toggle = now;
        redraw
    }

    // -----------------------------------------------------------------------
    // Scrolling and size
    // -----------------------------------------------------------------------
    /// Takes that the user scrolled, given the rows in the scrollback, where the
    /// view starts and how high it is. Away from the bottom the view stays
    /// where it is when output comes.
    pub fn scrolled(&mut self, total: u64, offset: u64, len: u64)
        requires
            offset + len <= u64::MAX,
        ensures
            *final(self) == (ViewState {
                viewport_offset: offset,
                scroll_lock: total > len && offset + len < total,
                ..*old(self)
            }),
    {
        self.viewport_offset = offset;
        self.scroll_lock = !(total <= len || offset + len >= total);
    }

    /// Takes that the scroll bar was moved, given the rows in the scrollback and
    /// how high the view is. Returns by how many rows the view moves, where it
    /// does; moves of the bar by the pane itself do not count. As with the wheel,
    /// away from the bottom the view stays where it is when output comes.
    pub fn scrollbar_moved(
        &mut self,
        new_offset: u64,
        current_offset: u64,
        total: u64,
        len: u64,
    ) -> (delta: Option<i64>)
        requires
            new_offset <= i64::MAX,
            current_offset <= i64::MAX,
        ensures
            if old(self).updating_scrollbar || new_offset == current_offset {
                delta is None && *final(self) == *old(self)
            } else {
                delta matches Some(d) && d == new_offset - current_offset && *final(self)
                    == (ViewState {
                    viewport_offset: new_offset,
                    scroll_lock: total > len && new_offset + len < total,
                    ..*old(self)
                })
            },
    {
        if self.updating_scrollbar || new_offset == current_offset {
            return None;
        }
        self.viewport_offset = new_offset;
        self.scroll_lock = total > len && new_offset < total - len;
        Some(new_offset as i64 - current_offset as i64)
    }

    /// Takes the place of the view at a regular moment. Returns whether there is
    /// anything to scroll, and so a scroll bar.
    pub fn scrollbar_tick(&mut self, total: u64, offset: u64, len: u64) -> (visible: bool)
        ensures
            visible == (total > len),
            *final(self) == (ViewState { viewport_offset: offset, ..*old(self) }),
    {
        self.viewport_offset = offset;
        total > len
    }

    /// Takes the size of the grid. Returns the rows and columns that the program
    /// is to be told, where they changed.
    pub fn resized(&mut self, rows: usize, cols: usize) -> (told: Option<(u16, u16)>)
        ensures
            *final(self) == (ViewState { rows, cols, ..*old(self) }),
            told == if rows == old(self).rows && cols == old(self).cols {
                None::<(u16, u16)>
            } else {
                Some(((rows as int % 65536) as u16, (cols as int % 65536) as u16))
            },
    {
        if rows == self.rows && cols == self.cols {
            return None;
        }
        self.rows = rows;
        self.cols = cols;
        Some(((rows % 65536) as u16, (cols % 65536) as u16))
    }

    /// Takes the size of the grid after the font changed. The program redraws
    /// then, which does not clear the selection for a while.
    pub fn apply_font_zoom(&mut self, rows: usize, cols: usize)
        ensures
            *final(self) == (ViewState {
                rows,
                cols,
                suppress_selection_clear_ticks: 12,
                ..*old(self)
            }),
    {
        self.rows = rows;
        self.cols = cols;
        self.suppress_selection_clear_ticks = 12;
    }

    /// Takes what another configuration says of bells and notifications.
    pub fn apply_config_change(&mut self, bell_mode: BellMode, notifications: bool)
        ensures
            *final(self) == (ViewState { bell_mode, notifications, ..*old(self) }),
    {
        self.bell_mode = bell_mode;
        self.notifications = notifications;
    }

    // -----------------------------------------------------------------------
    // What is drawn for a while
    // -----------------------------------------------------------------------
    /// Takes that a block of code was copied.
    pub fn copied(&mut self, now: u64)
        requires
            now + COPY_CONFIRMED <= u64::MAX,
        ensures
            *final(self) == (ViewState {
                copy_confirmed_until: Some((now + COPY_CONFIRMED) as u64),
                ..*old(self)
            }),
    {
        self.copy_confirmed_until = Some(now + COPY_CONFIRMED);
    }

    /// Whether the pane flashes now. A flash that is over is forgotten.
    pub fn flashing(&mut self, now: u64) -> (b: bool)
        ensures
            b == before(now, old(self).bell_flash_until),
            *final(self) == (ViewState {
                bell_flash_until: if b {
                    old(self).bell_flash_until
                } else {
                    None
                },
                ..*old(self)
            }),
    {
        if is_before(now, self.bell_flash_until) {
            true
        } else {
            self.bell_flash_until = None;
            false
        }
    }

    /// Whether a copy is being confirmed now. A confirmation that is over is
    /// forgotten.
    pub fn confirming_copy(&mut self, now: u64) -> (b: bool)
        ensures
            b == before(now, old(self).copy_confirmed_until),
            *final(self) == (ViewState {
                copy_confirmed_until: if b {
                    old(self).copy_confirmed_until
                } else {
                    None
                },
                ..*old(self)
            }),
    {
        if is_before(now, self.copy_confirmed_until) {
            true
        } else {
            self.copy_confirmed_until = None;
            false
        }
    }
}

} // verus!
