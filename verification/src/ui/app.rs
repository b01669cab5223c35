//! A window: its tabs and panes, and what keys and the window system do to
//! them.

use vstd::prelude::*;

use crate::seqs::{lemma_first_at, lemma_first_none};
use crate::text::join2;
use crate::ui::input::{csi, encode_key, key_bytes};
use crate::ui::keybindings::{action_for, default_model, Action, ComboModel, KeyBindings};
use crate::ui::keys::{KeyEvent, Modifiers};
use crate::ui::pane::PaneId;
use crate::ui::pane_tree::{
    adjacent, node_has, node_ids, node_split, node_without, PaneNode, SplitDirection,
};
use crate::ui::tab::{next_focus, Tab, TabId, TabModel};

verus! {

/// What wakes a window.
#[derive(Clone, Copy, Debug, PartialEq, Eq, Structural)]
pub enum UserEvent {
    PtyOutput,
}

/// A window.
#[derive(Debug, PartialEq, Eq)]
pub struct App {
    modifiers: Modifiers,
    tabs: Vec<Tab>,
    active_tab: usize,
    /// The panes whose programs run.
    panes: Vec<PaneId>,
    keybindings: KeyBindings,
    next_pane: u64,
    next_tab: u64,
}

/// The same as a mathematical value.
pub ghost struct AppModel {
    pub modifiers: Modifiers,
    pub tabs: Seq<TabModel>,
    pub active_tab: int,
    pub panes: Seq<PaneId>,
    pub next_pane: u64,
    pub next_tab: u64,
}

/// Tabs as mathematical values.
pub open spec fn tabs_model(tabs: Seq<Tab>) -> Seq<TabModel> {
    Seq::new(tabs.len(), |i: int| tabs[i]@)
}

impl View for App {
    type V = AppModel;

    closed spec fn view(&self) -> AppModel {
        AppModel {
            modifiers: self.modifiers,
            tabs: tabs_model(self.tabs@),
            active_tab: self.active_tab as int,
            panes: self.panes@,
            next_pane: self.next_pane,
            next_tab: self.next_tab,
        }
    }
}

/// The tab that is shown is one of the tabs, unless there are none, and the
/// focused pane of every tab stands in its tree.
pub open spec fn app_ok(m: AppModel) -> bool {
    &&& 0 <= m.active_tab
    &&& m.tabs.len() > 0 ==> m.active_tab < m.tabs.len()
    &&& forall|i: int|
        0 <= i < m.tabs.len() ==> node_has(
            (#[trigger] m.tabs[i]).pane_tree,
            m.tabs[i].focused_pane,
        )
}

/// The number after a number, zero after the largest.
pub open spec fn successor(n: u64) -> u64 {
    if n == u64::MAX {
        0
    } else {
        (n + 1) as u64
    }
}

/// The tab that is shown.
pub open spec fn shown_tab(m: AppModel) -> Option<TabModel> {
    if m.active_tab < m.tabs.len() {
        Some(m.tabs[m.active_tab])
    } else {
        None
    }
}

/// The pane that has the focus.
pub open spec fn focus_of(m: AppModel) -> Option<PaneId> {
    match shown_tab(m) {
        Some(t) => Some(t.focused_pane),
        None => None,
    }
}

/// The pane that has the focus, where its program runs.
pub open spec fn live_focus(m: AppModel) -> Option<PaneId> {
    match focus_of(m) {
        Some(id) => if m.panes.contains(id) {
            Some(id)
        } else {
            None
        },
        None => None,
    }
}

/// Panes without the first that has this id.
pub open spec fn panes_less(panes: Seq<PaneId>, id: PaneId) -> Seq<PaneId> {
    match panes.index_of_first(id) {
        Some(i) => panes.remove(i),
        None => panes,
    }
}

/// Panes without several.
pub open spec fn panes_less_all(panes: Seq<PaneId>, ids: Seq<PaneId>) -> Seq<PaneId>
    decreases ids.len(),
{
    if ids.len() == 0 {
        panes
    } else {
        panes_less(panes_less_all(panes, ids.drop_last()), ids.last())
    }
}

/// Those of several panes that were running, one after the other.
pub open spec fn ended(panes: Seq<PaneId>, ids: Seq<PaneId>) -> Seq<PaneId>
    decreases ids.len(),
{
    if ids.len() == 0 {
        Seq::empty()
    } else {
        let before = ended(panes, ids.drop_last());
        if panes_less_all(panes, ids.drop_last()).contains(ids.last()) {
            before.push(ids.last())
        } else {
            before
        }
    }
}

/// The window with the tab that is shown replaced.
pub open spec fn with_shown(m: AppModel, t: TabModel) -> AppModel {
    AppModel { tabs: m.tabs.update(m.active_tab, t), ..m }
}

/// A window without tabs, in which no number is used up.
pub open spec fn empty_window() -> AppModel {
    AppModel {
        modifiers: Modifiers { shift: false, control: false, alt: false, super_key: false },
        tabs: Seq::empty(),
        active_tab: 0,
        panes: Seq::empty(),
        next_pane: 1,
        next_tab: 1,
    }
}

/// The window with a new tab of one new pane, where its program was started.
/// The number of the pane is used up either way.
pub open spec fn with_new_tab(m: AppModel, spawned: bool) -> AppModel {
    let id = PaneId(m.next_pane);
    let counted = AppModel { next_pane: successor(m.next_pane), ..m };
    if spawned {
        AppModel {
            panes: m.panes.push(id),
            tabs: m.tabs.push(
                TabModel {
                    id: TabId(m.next_tab),
                    pane_tree: PaneNode::Leaf(id),
                    focused_pane: id,
                    title: "shell"@,
                },
            ),
            next_tab: successor(m.next_tab),
            active_tab: m.tabs.len() as int,
            ..counted
        }
    } else {
        counted
    }
}

/// The window without the tab that is shown. The one behind it is shown, or the
/// last.
pub open spec fn without_shown(m: AppModel) -> AppModel {
    if m.tabs.len() == 0 {
        m
    } else {
        let left = m.tabs.remove(m.active_tab);
        AppModel {
            panes: panes_less_all(m.panes, node_ids(m.tabs[m.active_tab].pane_tree)),
            tabs: left,
            active_tab: if left.len() > 0 && m.active_tab >= left.len() {
                left.len() - 1
            } else {
                m.active_tab
            },
            ..m
        }
    }
}

/// The panes whose programs end when the tab that is shown is closed.
pub open spec fn ended_with_shown(m: AppModel) -> Seq<PaneId> {
    if m.tabs.len() == 0 {
        Seq::empty()
    } else {
        ended(m.panes, node_ids(m.tabs[m.active_tab].pane_tree))
    }
}

/// The window with the next tab shown, the first after the last.
pub open spec fn to_next_tab(m: AppModel) -> AppModel {
    if m.tabs.len() == 0 {
        m
    } else {
        AppModel {
            active_tab: if m.active_tab + 1 < m.tabs.len() {
                m.active_tab + 1
            } else {
                0
            },
            ..m
        }
    }
}

/// The window with the tab before shown, the last before the first.
pub open spec fn to_prev_tab(m: AppModel) -> AppModel {
    if m.tabs.len() == 0 {
        m
    } else {
        AppModel {
            active_tab: if m.active_tab == 0 {
                m.tabs.len() - 1
            } else {
                m.active_tab - 1
            },
            ..m
        }
    }
}

/// To the next tab and back is no move, and the other way round.
pub proof fn law_tab_steps_undo_each_other(m: AppModel)
    requires
        app_ok(m),
    ensures
        m.tabs.len() > 0 ==> to_prev_tab(to_next_tab(m)) == m && to_next_tab(to_prev_tab(m)) == m,
        app_ok(to_next_tab(m)),
        app_ok(to_prev_tab(m)),
{
}

/// The window with the focused pane split, where the program of the new one was
/// started.
pub open spec fn with_split(m: AppModel, direction: SplitDirection, spawned: bool) -> AppModel {
    let id = PaneId(m.next_pane);
    let counted = AppModel { next_pane: successor(m.next_pane), ..m };
    if spawned {
        let grown = AppModel { panes: m.panes.push(id), ..counted };
        match shown_tab(m) {
            Some(t) => if node_has(t.pane_tree, t.focused_pane) {
                with_shown(
                    grown,
                    TabModel {
                        pane_tree: node_split(t.pane_tree, t.focused_pane, direction, id),
                        ..t
                    },
                )
            } else {
                grown
            },
            None => grown,
        }
    } else {
        counted
    }
}

/// A tab without its focused pane; the next one gets the focus.
pub open spec fn tab_less_focused(t: TabModel) -> TabModel {
    TabModel {
        focused_pane: next_focus(node_ids(t.pane_tree), t.focused_pane),
        pane_tree: match node_without(t.pane_tree, t.focused_pane) {
            Some(rest) => rest,
            None => t.pane_tree,
        },
        ..t
    }
}

/// The window without the focused pane; without the whole tab where it was the
/// last in it.
pub open spec fn without_focused(m: AppModel) -> AppModel {
    match shown_tab(m) {
        None => m,
        Some(t) => {
            let freed = AppModel { panes: panes_less(m.panes, t.focused_pane), ..m };
            if node_ids(t.pane_tree).len() <= 1 {
                without_shown(freed)
            } else {
                with_shown(freed, tab_less_focused(t))
            }
        },
    }
}

/// The panes whose programs end when the focused pane is closed.
pub open spec fn ended_with_focused(m: AppModel) -> Seq<PaneId> {
    match shown_tab(m) {
        None => Seq::empty(),
        Some(t) => {
            let first = if m.panes.contains(t.focused_pane) {
                seq![t.focused_pane]
            } else {
                Seq::empty()
            };
            if node_ids(t.pane_tree).len() <= 1 {
                first + ended_with_shown(
                    AppModel { panes: panes_less(m.panes, t.focused_pane), ..m },
                )
            } else {
                first
            }
        },
    }
}

/// The window with the focus on the next pane of the tab.
pub open spec fn with_next_focus(m: AppModel) -> AppModel {
    match shown_tab(m) {
        Some(t) => with_shown(
            m,
            TabModel { focused_pane: next_focus(node_ids(t.pane_tree), t.focused_pane), ..t },
        ),
        None => m,
    }
}

/// The window with the focus on the pane beside, where there is one.
pub open spec fn with_focus_beside(m: AppModel, direction: SplitDirection, forward: bool) -> AppModel {
    match shown_tab(m) {
        Some(t) => with_shown(
            m,
            TabModel {
                focused_pane: match adjacent(t.pane_tree, t.focused_pane, direction, forward) {
                    Some(id) => id,
                    None => t.focused_pane,
                },
                ..t
            },
        ),
        None => m,
    }
}

/// The window after an action. Copying and scrolling do nothing yet.
pub open spec fn after_action(m: AppModel, action: Action, spawned: bool) -> AppModel {
    match action {
        Action::NewTab => with_new_tab(m, spawned),
        Action::CloseTab => without_shown(m),
        Action::NextTab => to_next_tab(m),
        Action::PrevTab => to_prev_tab(m),
        Action::SplitHorizontal => with_split(m, SplitDirection::Horizontal, spawned),
        Action::SplitVertical => with_split(m, SplitDirection::Vertical, spawned),
        Action::ClosePane => without_focused(m),
        Action::FocusNext => with_next_focus(m),
        Action::FocusUp => with_focus_beside(m, SplitDirection::Vertical, false),
        Action::FocusDown => with_focus_beside(m, SplitDirection::Vertical, true),
        Action::FocusLeft => with_focus_beside(m, SplitDirection::Horizontal, false),
        Action::FocusRight => with_focus_beside(m, SplitDirection::Horizontal, true),
        _ => m,
    }
}

/// The panes whose programs end with an action.
pub open spec fn ended_by(m: AppModel, action: Action) -> Seq<PaneId> {
    match action {
        Action::CloseTab => ended_with_shown(m),
        Action::ClosePane => ended_with_focused(m),
        _ => Seq::empty(),
    }
}

/// Whether an action needs the program of a new pane started first.
pub fn needs_pane(action: Action) -> (b: bool)
    ensures
        b == (action is NewTab || action is SplitHorizontal || action is SplitVertical),
{
    match action {
        Action::NewTab => true,
        Action::SplitHorizontal => true,
        Action::SplitVertical => true,
        _ => false,
    }
}

/// What a key does in a window.
#[derive(Debug, PartialEq, Eq)]
pub enum KeyOutcome {
    /// An action; then the window is drawn again.
    Act(Action),
    /// Bytes for the focused pane, where its program runs; then the window is
    /// drawn again.
    Write { pane: Option<PaneId>, bytes: Vec<u8> },
    /// Nothing.
    Ignore,
}

/// What happens to a window.
#[derive(Debug, PartialEq, Eq)]
pub enum WindowEvent {
    CloseRequested,
    /// It has another size, in pixels.
    Resized { width: u32, height: u32 },
    RedrawRequested,
    ModifiersChanged(Modifiers),
    KeyboardInput(KeyEvent),
    /// The wheel was turned by so many lines, up for a positive number.
    MouseWheel { lines: i32 },
    /// Anything else.
    Other,
}

/// What a window does next.
#[derive(Debug, PartialEq, Eq)]
pub enum WindowStep {
    /// End the programs of these panes, and close.
    Close { ended: Vec<PaneId> },
    /// Give these panes the size of the grid, and draw.
    Resize { panes: Vec<PaneId> },
    /// Take the output of all panes and draw the focused one; then close where
    /// no tab is left.
    Draw { shown: Option<PaneId>, closes: bool },
    /// What a key does.
    Key(KeyOutcome),
    /// Write these bytes to the focused pane, where its program runs.
    Write { pane: Option<PaneId>, bytes: Vec<u8> },
    /// Nothing.
    Nothing,
}

/// Whether a key does this in a window.
pub open spec fn key_outcome_ok(
    m: AppModel,
    bindings: Seq<(ComboModel, Action)>,
    event: KeyEvent,
    o: KeyOutcome,
) -> bool {
    let action = action_for(bindings, event.logical_key@, m.modifiers);
    if !event.pressed {
        o is Ignore
    } else if action != Action::Nothing {
        o == KeyOutcome::Act(action)
    } else {
        match key_bytes(event, m.modifiers) {
            Some(bytes) => o matches KeyOutcome::Write { pane, bytes: b } && pane == live_focus(m)
                && b@ == bytes,
            None => o is Ignore,
        }
    }
}

/// The panes of the tab that is shown.
pub open spec fn shown_panes(m: AppModel) -> Seq<PaneId> {
    match shown_tab(m) {
        Some(t) => node_ids(t.pane_tree),
        None => Seq::empty(),
    }
}

/// Whether a window does this next when something happens to it.
pub open spec fn window_step_ok(
    m: AppModel,
    bindings: Seq<(ComboModel, Action)>,
    event: WindowEvent,
    step: WindowStep,
) -> bool {
    match event {
        WindowEvent::CloseRequested => step matches WindowStep::Close { ended } && ended@
            == m.panes,
        WindowEvent::Resized { width, height } => if width == 0 || height == 0 {
            step is Nothing
        } else {
            step matches WindowStep::Resize { panes } && panes@ == shown_panes(m)
        },
        WindowEvent::RedrawRequested => step == WindowStep::Draw {
            shown: live_focus(m),
            closes: m.tabs.len() == 0,
        },
        WindowEvent::ModifiersChanged(_) => step is Nothing,
        WindowEvent::KeyboardInput(e) => step matches WindowStep::Key(o) && key_outcome_ok(
            m,
            bindings,
            e,
            o,
        ),
        WindowEvent::MouseWheel { lines } => step matches WindowStep::Write { pane, bytes } && pane
            == live_focus(m) && bytes@ == wheel_bytes(lines),
        WindowEvent::Other => step is Nothing,
    }
}

/// Repeats bytes.
pub open spec fn repeated(bytes: Seq<u8>, n: nat) -> Seq<u8>
    decreases n,
{
    if n == 0 {
        Seq::empty()
    } else {
        repeated(bytes, (n - 1) as nat) + bytes
    }
}

/// What a turn of the wheel by so many lines sends: as many presses of an arrow
/// key, up for a positive number.
pub open spec fn wheel_bytes(lines: i32) -> Seq<u8> {
    if lines > 0 {
        repeated(csi(seq![0x41u8]), lines as nat)
    } else {
        repeated(csi(seq![0x42u8]), (-lines) as nat)
    }
}

/// The bytes that a turn of the wheel sends.
pub fn wheel_input(lines: i32) -> (bytes: Vec<u8>)
    ensures
        bytes@ == wheel_bytes(lines),
{
    let mut bytes: Vec<u8> = Vec::new();
    let n: i64 = if lines > 0 {
        lines as i64
    } else {
        -(lines as i64)
    };
    let letter: u8 = if lines > 0 {
        0x41
    } else {
        0x42
    };
    let mut i: i64 = 0;
    while i < n
        invariant
            0 <= i <= n,
            bytes@ == repeated(csi(seq![letter]), i as nat),
        decreases n - i,
    {
        bytes.push(0x1b);
        bytes.push(0x5b);
        bytes.push(letter);
        i = i + 1;
        assert(bytes@ =~= repeated(csi(seq![letter]), i as nat));
    }
    bytes
}

impl App {
    /// The invariant of a window.
    pub open spec fn wf(&self) -> bool {
        app_ok(self@)
    }

    /// A window without tabs.
    pub fn new() -> (a: App)
        ensures
            a.wf(),
            a@ == empty_window(),
            a.bindings() == default_model(),
    {
        let a = App {
            modifiers: Modifiers { shift: false, control: false, alt: false, super_key: false },
            tabs: Vec::new(),
            active_tab: 0,
            panes: Vec::new(),
            keybindings: KeyBindings::default_bindings(),
            next_pane: 1,
            next_tab: 1,
        };
        assert(a@.tabs =~= Seq::empty());
        a
    }

    /// A window with its first tab, of one pane. Takes that the program of the
    /// pane was started, or why not: then there is no window, but words.
    pub fn start(spawned: Result<(), String>) -> (r: Result<App, String>)
        ensures
            match spawned {
                Ok(()) => r matches Ok(a) && a.wf() && a@ == with_new_tab(empty_window(), true)
                    && a.bindings() == default_model(),
                Err(e) => r matches Err(words) && words@ == "Failed to spawn initial shell: "@
                    + e@,
            },
    {
        match spawned {
            Ok(()) => {
                let mut a = App::new();
                a.new_tab(true);
                Ok(a)
            },
            Err(e) => Err(join2("Failed to spawn initial shell: ", e.as_str())),
        }
    }

    /// The keys that do something.
    pub closed spec fn bindings(&self) -> Seq<(ComboModel, Action)> {
        self.keybindings@
    }

    /// The number of tabs.
    pub fn tab_count(&self) -> (n: usize)
        ensures
            n == self@.tabs.len(),
    {
        self.tabs.len()
    }

    /// The pane that has the focus.
    pub fn focused_pane_id(&self) -> (id: Option<PaneId>)
        ensures
            id == focus_of(self@),
    {
        if self.active_tab < self.tabs.len() {
            assert(self@.tabs[self.active_tab as int] == self.tabs@[self.active_tab as int]@);
            Some(self.tabs[self.active_tab].focused_pane)
        } else {
            None
        }
    }

    fn runs(&self, id: PaneId) -> (b: bool)
        ensures
            b == self@.panes.contains(id),
    {
        let mut i: usize = 0;
        while i < self.panes.len()
            invariant
                i <= self.panes@.len(),
                forall|j: int| 0 <= j < i ==> self.panes@[j] != id,
            decreases self.panes@.len() - i,
        {
            if self.panes[i] == id {
                assert(self.panes@[i as int] == id);
                return true;
            }
            i = i + 1;
        }
        false
    }

    /// The pane that input goes to: the focused one, where its program runs.
    pub fn input_pane(&self) -> (id: Option<PaneId>)
        ensures
            id == live_focus(self@),
    {
        match self.focused_pane_id() {
            Some(id) => if self.runs(id) {
                Some(id)
            } else {
                None
            },
            None => None,
        }
    }

    fn forget_pane(&mut self, id: PaneId) -> (ran: bool)
        ensures
            ran == old(self)@.panes.contains(id),
            final(self)@ == (AppModel { panes: panes_less(old(self)@.panes, id), ..old(self)@ }),
            final(self).bindings() == old(self).bindings(),
    {
        let mut i: usize = 0;
        while i < self.panes.len()
            invariant
                i <= self.panes@.len(),
                *self == *old(self),
                forall|j: int| 0 <= j < i ==> self.panes@[j] != id,
            decreases self.panes@.len() - i,
        {
            if self.panes[i] == id {
                proof {
                    lemma_first_at(self.panes@, id, i as int);
                    assert(self.panes@.contains(id));
                }
                let _ = self.panes.remove(i);
                assert(self@.tabs =~= old(self)@.tabs);
                return true;
            }
            i = i + 1;
        }
        proof {
            lemma_first_none(self.panes@, id);
        }
        false
    }

    fn forget_panes(&mut self, ids: &Vec<PaneId>) -> (ran: Vec<PaneId>)
        ensures
            ran@ == ended(old(self)@.panes, ids@),
            final(self)@ == (AppModel {
                panes: panes_less_all(old(self)@.panes, ids@),
                ..old(self)@
            }),
            final(self).bindings() == old(self).bindings(),
    {
        let mut ran: Vec<PaneId> = Vec::new();
        let mut i: usize = 0;
        while i < ids.len()
            invariant
                i <= ids@.len(),
                ran@ == ended(old(self)@.panes, ids@.take(i as int)),
                self@ == (AppModel {
                    panes: panes_less_all(old(self)@.panes, ids@.take(i as int)),
                    ..old(self)@
                }),
                self.bindings() == old(self).bindings(),
            decreases ids@.len() - i,
        {
            assert(ids@.take(i + 1).drop_last() =~= ids@.take(i as int));
            let id = ids[i];
            if self.forget_pane(id) {
                ran.push(id);
            }
            i = i + 1;
        }
        assert(ids@.take(i as int) =~= ids@);
        ran
    }

    /// Opens a tab with a pane whose program was started, or was not.
    pub fn new_tab(&mut self, spawned: bool)
        requires
            old(self).wf(),
        ensures
            final(self)@ == with_new_tab(old(self)@, spawned),
            final(self).wf(),
            final(self).bindings() == old(self).bindings(),
    {
        let pane_id = PaneId::next(&mut self.next_pane);
        assert(self@.tabs =~= old(self)@.tabs);
        if spawned {
            self.panes.push(pane_id);
            let tab_id = TabId::next(&mut self.next_tab);
            self.tabs.push(Tab::new(tab_id, pane_id));
            self.active_tab = self.tabs.len() - 1;
            assert(self@.tabs =~= with_new_tab(old(self)@, spawned).tabs);
        }
    }

    /// Closes the tab that is shown. Returns the panes whose programs are to be
    /// ended.
    pub fn close_active_tab(&mut self) -> (ran: Vec<PaneId>)
        requires
            old(self).wf(),
        ensures
            final(self)@ == without_shown(old(self)@),
            ran@ == ended_with_shown(old(self)@),
            final(self).wf(),
            final(self).bindings() == old(self).bindings(),
    {
        if self.tabs.len() == 0 {
            return Vec::new();
        }
        assert(self@.tabs[self.active_tab as int] == self.tabs@[self.active_tab as int]@);
        let tab = self.tabs.remove(self.active_tab);
        assert(self@.tabs =~= old(self)@.tabs.remove(self.active_tab as int));
        let ids = tab.pane_tree.pane_ids();
        let ran = self.forget_panes(&ids);
        if self.tabs.len() > 0 && self.active_tab >= self.tabs.len() {
            self.active_tab = self.tabs.len() - 1;
        }
        assert(self@.tabs =~= without_shown(old(self)@).tabs);
        ran
    }

    /// Shows the next tab.
    pub fn next_tab(&mut self)
        requires
            old(self).wf(),
        ensures
            final(self)@ == to_next_tab(old(self)@),
            final(self).wf(),
            final(self).bindings() == old(self).bindings(),
    {
        if self.tabs.len() > 0 {
            self.active_tab = if self.active_tab + 1 < self.tabs.len() {
                self.active_tab + 1
            } else {
                0
            };
            assert(self@.tabs =~= old(self)@.tabs);
        }
    }

    /// Shows the tab before.
    pub fn prev_tab(&mut self)
        requires
            old(self).wf(),
        ensures
            final(self)@ == to_prev_tab(old(self)@),
            final(self).wf(),
            final(self).bindings() == old(self).bindings(),
    {
        if self.tabs.len() > 0 {
            self.active_tab = if self.active_tab == 0 {
                self.tabs.len() - 1
            } else {
                self.active_tab - 1
            };
            assert(self@.tabs =~= old(self)@.tabs);
        }
    }

    /// Splits the focused pane; the program of the new one was started, or was
    /// not.
    pub fn split_focused(&mut self, direction: SplitDirection, spawned: bool)
        requires
            old(self).wf(),
        ensures
            final(self)@ == with_split(old(self)@, direction, spawned),
            final(self).wf(),
            final(self).bindings() == old(self).bindings(),
    {
        let id = PaneId::next(&mut self.next_pane);
        if spawned {
            self.panes.push(id);
            let i: usize = self.active_tab;
            if i < self.tabs.len() {
                assert(old(self)@.tabs[i as int] == self.tabs@[i as int]@);
                let tab = &mut self.tabs[i];
                tab.split(direction, id);
            }
        }
        assert(self@.tabs =~= with_split(old(self)@, direction, spawned).tabs);
    }

    /// Closes the focused pane, and its tab where it is the last in it. Returns
    /// the panes whose programs are to be ended.
    pub fn close_focused_pane(&mut self) -> (ran: Vec<PaneId>)
        requires
            old(self).wf(),
        ensures
            final(self)@ == without_focused(old(self)@),
            ran@ == ended_with_focused(old(self)@),
            final(self).wf(),
            final(self).bindings() == old(self).bindings(),
    {
        let mut ran: Vec<PaneId> = Vec::new();
        let i: usize = self.active_tab;
        if i >= self.tabs.len() {
            return ran;
        }
        let ghost m = old(self)@;
        assert(m.tabs[i as int] == self.tabs@[i as int]@);
        let id = self.tabs[i].focused_pane;
        let tab = &mut self.tabs[i];
        let last = tab.close_pane(id);
        proof {
            if last {
                assert(self@.tabs =~= m.tabs);
            } else {
                assert(self@.tabs =~= m.tabs.update(i as int, tab_less_focused(m.tabs[i as int])));
            }
        }
        if self.forget_pane(id) {
            ran.push(id);
        }
        assert(ran@ =~= if m.panes.contains(id) {
            seq![id]
        } else {
            Seq::empty()
        });
        if last {
            let mut more = self.close_active_tab();
            ran.append(&mut more);
        }
        ran
    }

    fn focus_beside(&mut self, direction: SplitDirection, forward: bool)
        requires
            old(self).wf(),
        ensures
            final(self)@ == with_focus_beside(old(self)@, direction, forward),
            final(self).wf(),
            final(self).bindings() == old(self).bindings(),
    {
        let i: usize = self.active_tab;
        if i < self.tabs.len() {
            assert(old(self)@.tabs[i as int] == self.tabs@[i as int]@);
            let tab = &mut self.tabs[i];
            tab.focus_direction(direction, forward);
        }
        assert(self@.tabs =~= with_focus_beside(old(self)@, direction, forward).tabs);
    }

    fn focus_next(&mut self)
        requires
            old(self).wf(),
        ensures
            final(self)@ == with_next_focus(old(self)@),
            final(self).wf(),
            final(self).bindings() == old(self).bindings(),
    {
        let i: usize = self.active_tab;
        if i < self.tabs.len() {
            assert(old(self)@.tabs[i as int] == self.tabs@[i as int]@);
            let tab = &mut self.tabs[i];
            tab.focus_next();
        }
        assert(self@.tabs =~= with_next_focus(old(self)@).tabs);
    }

    /// Carries out an action, for which the program of a new pane was started
    /// or was not, where it needs one. Returns the panes whose programs are to
    /// be ended. What is pasted goes to the pane that input goes to.
    pub fn handle_action(&mut self, action: Action, spawned: bool) -> (ran: Vec<PaneId>)
        requires
            old(self).wf(),
        ensures
            final(self)@ == after_action(old(self)@, action, spawned),
            ran@ == ended_by(old(self)@, action),
            final(self).wf(),
            final(self).bindings() == old(self).bindings(),
    {
        match action {
            Action::CloseTab => {
                return self.close_active_tab();
            },
            Action::ClosePane => {
                return self.close_focused_pane();
            },
            Action::NewTab => self.new_tab(spawned),
            Action::NextTab => self.next_tab(),
            Action::PrevTab => self.prev_tab(),
            Action::SplitHorizontal => self.split_focused(SplitDirection::Horizontal, spawned),
            Action::SplitVertical => self.split_focused(SplitDirection::Vertical, spawned),
            Action::FocusNext => self.focus_next(),
            Action::FocusUp => self.focus_beside(SplitDirection::Vertical, false),
            Action::FocusDown => self.focus_beside(SplitDirection::Vertical, true),
            Action::FocusLeft => self.focus_beside(SplitDirection::Horizontal, false),
            Action::FocusRight => self.focus_beside(SplitDirection::Horizontal, true),
            _ => {},
        }
        Vec::new()
    }

    /// Takes which modifiers are held.
    pub fn modifiers_changed(&mut self, modifiers: Modifiers)
        ensures
            final(self)@ == (AppModel { modifiers, ..old(self)@ }),
            final(self).bindings() == old(self).bindings(),
    {
        self.modifiers = modifiers;
        assert(self@.tabs =~= old(self)@.tabs);
    }

    /// Decides what a key does. Bindings come before the programs in the panes.
    pub fn keyboard_input(&self, event: &KeyEvent) -> (o: KeyOutcome)
        ensures
            key_outcome_ok(self@, self.bindings(), *event, o),
    {
        if !event.pressed {
            return KeyOutcome::Ignore;
        }
        let action = self.keybindings.match_key(event, self.modifiers);
        if action != Action::Nothing {
            return KeyOutcome::Act(action);
        }
        match encode_key(event, self.modifiers) {
            Some(bytes) => KeyOutcome::Write { pane: self.input_pane(), bytes },
            None => KeyOutcome::Ignore,
        }
    }

    /// The panes of the tab that is shown.
    fn panes_shown(&self) -> (ids: Vec<PaneId>)
        ensures
            ids@ == shown_panes(self@),
    {
        if self.active_tab >= self.tabs.len() {
            return Vec::new();
        }
        assert(self@.tabs[self.active_tab as int] == self.tabs@[self.active_tab as int]@);
        self.tabs[self.active_tab].pane_tree.pane_ids()
    }

    /// Takes what happened to the window, and decides what it does next. An
    /// action of a key is still to be carried out.
    pub fn window_event(&mut self, event: WindowEvent) -> (step: WindowStep)
        ensures
            window_step_ok(old(self)@, old(self).bindings(), event, step),
            final(self)@ == match event {
                WindowEvent::ModifiersChanged(modifiers) => (AppModel {
                    modifiers,
                    ..old(self)@
                }),
                _ => old(self)@,
            },
            final(self).bindings() == old(self).bindings(),
    {
        match event {
            WindowEvent::CloseRequested => WindowStep::Close { ended: self.close_requested() },
            WindowEvent::Resized { width, height } => {
                if width == 0 || height == 0 {
                    WindowStep::Nothing
                } else {
                    WindowStep::Resize { panes: self.panes_shown() }
                }
            },
            WindowEvent::RedrawRequested => WindowStep::Draw {
                shown: self.input_pane(),
                closes: self.exits(),
            },
            WindowEvent::ModifiersChanged(modifiers) => {
                self.modifiers_changed(modifiers);
                WindowStep::Nothing
            },
            WindowEvent::KeyboardInput(key) => WindowStep::Key(self.keyboard_input(&key)),
            WindowEvent::MouseWheel { lines } => WindowStep::Write {
                pane: self.input_pane(),
                bytes: wheel_input(lines),
            },
            WindowEvent::Other => WindowStep::Nothing,
        }
    }

    /// The panes whose programs are to be ended when the window is closed: all.
    pub fn close_requested(&self) -> (ids: Vec<PaneId>)
        ensures
            ids@ == self@.panes,
    {
        let mut ids: Vec<PaneId> = Vec::new();
        ids.extend_from_slice(self.panes.as_slice());
        assert(ids@ =~= self.panes@);
        ids
    }

    /// Whether the window closes: it has no tabs left.
    pub fn exits(&self) -> (b: bool)
        ensures
            b == (self@.tabs.len() == 0),
    {
        self.tabs.len() == 0
    }
}

} // verus!
