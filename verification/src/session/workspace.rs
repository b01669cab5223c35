//! The saved form of a session, built from a layout and the directories of its
//! panes.

use vstd::prelude::*;

use crate::ids::{PaneId, Uuid};
use crate::ratio::Ratio;
use crate::session::layout::{PaneTree, PaneTreeLayout, SessionWorkspace, WorkspaceModel};
use crate::session::manager::{initial_cwd, optional_text, SessionManager};
use crate::session::model::{pane_record, PaneModel};

verus! {

/// A layout as a window describes it.
#[derive(Debug, PartialEq, Eq)]
pub struct WorkspaceLayout {
    pub workspaces: Vec<WorkspaceLayoutEntry>,
    pub active_workspace: usize,
    pub window_width: Option<i32>,
    pub window_height: Option<i32>,
}

/// One workspace of a described layout.
#[derive(Debug, PartialEq, Eq)]
pub struct WorkspaceLayoutEntry {
    pub id: Uuid,
    pub name: String,
    pub tabs: Vec<TabLayoutEntry>,
    pub active_tab: usize,
}

/// One tab of a described layout.
#[derive(Debug, PartialEq, Eq)]
pub struct TabLayoutEntry {
    pub title: String,
    pub pane_tree: PaneTreeLayout,
}

/// A pane tree in saved form: directories in place of live panes.
#[derive(Debug, PartialEq, Eq)]
pub enum PaneTreeState {
    Leaf { cwd: String, pane_id: Option<Uuid> },
    Split { direction: String, ratio: Ratio, first: Box<PaneTreeState>, second: Box<PaneTreeState> },
}

/// A tab in saved form.
#[derive(Debug, PartialEq, Eq)]
pub struct TabState {
    pub title: String,
    pub pane_id: Option<Uuid>,
    pub pane_tree: PaneTreeState,
}

/// A workspace in saved form.
#[derive(Debug, PartialEq, Eq)]
pub struct Workspace {
    pub id: Uuid,
    pub name: String,
    pub root_paths: Vec<String>,
    pub tabs: Vec<TabState>,
    pub active_tab: usize,
}

/// A session in saved form.
#[derive(Debug, PartialEq, Eq)]
pub struct WorkspaceState {
    pub version: u32,
    pub workspaces: Vec<Workspace>,
    pub active_workspace: usize,
    pub window_width: Option<i32>,
    pub window_height: Option<i32>,
    pub pinned: bool,
}

/// The directory that is saved for a pane: its own where it is alive, else the
/// home directory or the root.
pub open spec fn saved_cwd(panes: Seq<PaneModel>, id: PaneId, home: Option<Seq<char>>) -> Seq<
    char,
> {
    match pane_record(panes, id) {
        Some(p) => p.cwd,
        None => initial_cwd(None, home),
    }
}

/// Whether a saved tree is the form of a live one: the same shape, the
/// directory of each pane, and the ids of the panes where they are kept.
pub open spec fn tree_saved(
    state: PaneTreeState,
    tree: PaneTree,
    panes: Seq<PaneModel>,
    home: Option<Seq<char>>,
    keep_ids: bool,
) -> bool
    decreases state,
{
    match (state, tree) {
        (PaneTreeState::Leaf { cwd, pane_id: kept }, PaneTree::Leaf { pane_id }) => {
            &&& cwd@ == saved_cwd(panes, pane_id, home)
            &&& kept == if keep_ids {
                Some(pane_id.0)
            } else {
                None
            }
        },
        (
            PaneTreeState::Split { direction, ratio, first, second },
            PaneTree::Split { direction: d, ratio: r, first: f, second: s },
        ) => {
            &&& direction@ == d
            &&& ratio == r
            &&& tree_saved(*first, *f, panes, home, keep_ids)
            &&& tree_saved(*second, *s, panes, home, keep_ids)
        },
        _ => false,
    }
}

/// The directory that is saved for a pane.
fn cwd_to_save(sm: &SessionManager, id: PaneId, home: &Option<String>) -> (cwd: String)
    ensures
        cwd@ == saved_cwd(sm@.panes, id, optional_text(*home)),
{
    match sm.pane_info(id) {
        Some(info) => info.cwd,
        None => match home {
            Some(h) => h.clone(),
            None => "/".to_owned(),
        },
    }
}

/// Saves a live pane tree, ids of panes kept.
fn save_tree(tree: &PaneTreeLayout, sm: &SessionManager, home: &Option<String>) -> (state:
    PaneTreeState)
    ensures
        tree_saved(state, tree@, sm@.panes, optional_text(*home), true),
    decreases tree,
{
    match tree {
        PaneTreeLayout::Leaf { pane_id } => PaneTreeState::Leaf {
            cwd: cwd_to_save(sm, *pane_id, home),
            pane_id: Some(pane_id.0),
        },
        PaneTreeLayout::Split { direction, ratio, first, second } => PaneTreeState::Split {
            direction: direction.clone(),
            ratio: *ratio,
            first: Box::new(save_tree(first, sm, home)),
            second: Box::new(save_tree(second, sm, home)),
        },
    }
}

/// Whether a saved tree is the form of a described one: the same shape, for
/// each pane a directory that `get_cwd` gives, and no ids.
pub open spec fn tree_built<F: Fn(PaneId) -> String>(
    state: PaneTreeState,
    tree: PaneTree,
    get_cwd: F,
) -> bool
    decreases state,
{
    match (state, tree) {
        (PaneTreeState::Leaf { cwd, pane_id: kept }, PaneTree::Leaf { pane_id }) => {
            &&& call_ensures(get_cwd, (pane_id,), cwd)
            &&& kept is None
        },
        (
            PaneTreeState::Split { direction, ratio, first, second },
            PaneTree::Split { direction: d, ratio: r, first: f, second: s },
        ) => {
            &&& direction@ == d
            &&& ratio == r
            &&& tree_built(*first, *f, get_cwd)
            &&& tree_built(*second, *s, get_cwd)
        },
        _ => false,
    }
}

fn build_pane_tree_state<F: Fn(PaneId) -> String>(tree: &PaneTreeLayout, get_cwd: &F) -> (state:
    PaneTreeState)
    requires
        forall|id: PaneId| call_requires(*get_cwd, (id,)),
    ensures
        tree_built(state, tree@, *get_cwd),
    decreases tree,
{
    match tree {
        PaneTreeLayout::Leaf { pane_id } => {
            let cwd = get_cwd(*pane_id);
            PaneTreeState::Leaf { cwd, pane_id: None }
        },
        PaneTreeLayout::Split { direction, ratio, first, second } => PaneTreeState::Split {
            direction: direction.clone(),
            ratio: *ratio,
            first: Box::new(build_pane_tree_state(first, get_cwd)),
            second: Box::new(build_pane_tree_state(second, get_cwd)),
        },
    }
}

/// A tree that is built with the directories to save is a saved one.
proof fn lemma_built_is_saved<F: Fn(PaneId) -> String>(
    state: PaneTreeState,
    tree: PaneTree,
    get_cwd: F,
    panes: Seq<PaneModel>,
    home: Option<Seq<char>>,
)
    requires
        tree_built(state, tree, get_cwd),
        forall|id: PaneId, cwd: String| #[trigger]
            call_ensures(get_cwd, (id,), cwd) ==> cwd@ == saved_cwd(panes, id, home),
    ensures
        tree_saved(state, tree, panes, home, false),
    decreases state,
{
    match (state, tree) {
        (
            PaneTreeState::Split { direction, ratio, first, second },
            PaneTree::Split { direction: d, ratio: r, first: f, second: s },
        ) => {
            lemma_built_is_saved(*first, *f, get_cwd, panes, home);
            lemma_built_is_saved(*second, *s, get_cwd, panes, home);
        },
        _ => {},
    }
}

/// Whether a saved workspace is the form of a described one, with the
/// directories that `get_cwd` gives.
pub open spec fn workspace_built<F: Fn(PaneId) -> String>(
    state: Workspace,
    entry: WorkspaceLayoutEntry,
    get_cwd: F,
) -> bool {
    &&& state.id == entry.id
    &&& state.name@ == entry.name@
    &&& state.root_paths@.len() == 0
    &&& state.active_tab == entry.active_tab
    &&& state.tabs@.len() == entry.tabs@.len()
    &&& forall|i: int|
        0 <= i < entry.tabs@.len() ==> {
            &&& (#[trigger] state.tabs@[i]).title@ == entry.tabs@[i].title@
            &&& state.tabs@[i].pane_id is None
            &&& tree_built(state.tabs@[i].pane_tree, entry.tabs@[i].pane_tree@, get_cwd)
        }
}

/// Whether a saved workspace is the form of a described one, with the
/// directories of its panes.
pub open spec fn described_workspace_saved(
    state: Workspace,
    entry: WorkspaceLayoutEntry,
    panes: Seq<PaneModel>,
    home: Option<Seq<char>>,
) -> bool {
    &&& state.id == entry.id
    &&& state.name@ == entry.name@
    &&& state.root_paths@.len() == 0
    &&& state.active_tab == entry.active_tab
    &&& state.tabs@.len() == entry.tabs@.len()
    &&& forall|i: int|
        0 <= i < entry.tabs@.len() ==> {
            &&& (#[trigger] state.tabs@[i]).title@ == entry.tabs@[i].title@
            &&& state.tabs@[i].pane_id is None
            &&& tree_saved(state.tabs@[i].pane_tree, entry.tabs@[i].pane_tree@, panes, home, false)
        }
}

fn build_workspace<F: Fn(PaneId) -> String>(entry: &WorkspaceLayoutEntry, get_cwd: &F) -> (state:
    Workspace)
    requires
        forall|id: PaneId| call_requires(*get_cwd, (id,)),
    ensures
        workspace_built(state, *entry, *get_cwd),
{
    let mut tabs: Vec<TabState> = Vec::new();
    let mut i: usize = 0;
    while i < entry.tabs.len()
        invariant
            i <= entry.tabs@.len(),
            tabs@.len() == i,
            forall|id: PaneId| call_requires(*get_cwd, (id,)),
            forall|j: int|
                0 <= j < i ==> {
                    &&& (#[trigger] tabs@[j]).title@ == entry.tabs@[j].title@
                    &&& tabs@[j].pane_id is None
                    &&& tree_built(tabs@[j].pane_tree, entry.tabs@[j].pane_tree@, *get_cwd)
                },
        decreases entry.tabs@.len() - i,
    {
        let tab = &entry.tabs[i];
        tabs.push(
            TabState {
                title: tab.title.clone(),
                pane_id: None,
                pane_tree: build_pane_tree_state(&tab.pane_tree, get_cwd),
            },
        );
        i = i + 1;
    }
    Workspace {
        id: entry.id,
        name: entry.name.clone(),
        root_paths: Vec::new(),
        tabs,
        active_tab: entry.active_tab,
    }
}

/// Builds the saved form of a described layout. `get_cwd` gives the live
/// directory of a pane. Ids of panes are not kept.
pub fn build_workspace_state<F: Fn(PaneId) -> String>(layout: &WorkspaceLayout, get_cwd: F) -> (
state: WorkspaceState)
    requires
        forall|id: PaneId| call_requires(get_cwd, (id,)),
    ensures
        state.version == 1,
        state.active_workspace == layout.active_workspace,
        state.window_width == layout.window_width,
        state.window_height == layout.window_height,
        !state.pinned,
        state.workspaces@.len() == layout.workspaces@.len(),
        forall|w: int|
            0 <= w < layout.workspaces@.len() ==> workspace_built(
                #[trigger] state.workspaces@[w],
                layout.workspaces@[w],
                get_cwd,
            ),
{
    let mut workspaces: Vec<Workspace> = Vec::new();
    let mut w: usize = 0;
    while w < layout.workspaces.len()
        invariant
            w <= layout.workspaces@.len(),
            workspaces@.len() == w,
            forall|id: PaneId| call_requires(get_cwd, (id,)),
            forall|v: int|
                0 <= v < w ==> workspace_built(
                    #[trigger] workspaces@[v],
                    layout.workspaces@[v],
                    get_cwd,
                ),
        decreases layout.workspaces@.len() - w,
    {
        workspaces.push(build_workspace(&layout.workspaces[w], &get_cwd));
        w = w + 1;
    }
    WorkspaceState {
        version: 1,
        workspaces,
        active_workspace: layout.active_workspace,
        window_width: layout.window_width,
        window_height: layout.window_height,
        pinned: false,
    }
}

/// Whether a saved workspace is the form of a live one, ids of panes kept.
pub open spec fn live_workspace_saved(
    state: Workspace,
    ws: WorkspaceModel,
    panes: Seq<PaneModel>,
    home: Option<Seq<char>>,
) -> bool {
    &&& state.id == ws.id
    &&& state.name@ == ws.name
    &&& state.root_paths@.len() == 0
    &&& state.active_tab == ws.active_tab
    &&& state.tabs@.len() == ws.tabs.len()
    &&& forall|i: int|
        0 <= i < ws.tabs.len() ==> {
            &&& (#[trigger] state.tabs@[i]).title@ == ws.tabs[i].title
            &&& state.tabs@[i].pane_id is None
            &&& tree_saved(state.tabs@[i].pane_tree, ws.tabs[i].pane_tree, panes, home, true)
        }
}

fn save_live_workspace(
    ws: &SessionWorkspace,
    sm: &SessionManager,
    home: &Option<String>,
) -> (state: Workspace)
    ensures
        live_workspace_saved(state, ws@, sm@.panes, optional_text(*home)),
{
    let mut tabs: Vec<TabState> = Vec::new();
    let mut i: usize = 0;
    while i < ws.tabs.len()
        invariant
            i <= ws.tabs@.len(),
            tabs@.len() == i,
            forall|j: int|
                0 <= j < i ==> {
                    &&& (#[trigger] tabs@[j]).title@ == ws@.tabs[j].title
                    &&& tabs@[j].pane_id is None
                    &&& tree_saved(
                        tabs@[j].pane_tree,
                        ws@.tabs[j].pane_tree,
                        sm@.panes,
                        optional_text(*home),
                        true,
                    )
                },
        decreases ws.tabs@.len() - i,
    {
        assert(ws@.tabs[i as int] == ws.tabs@[i as int]@);
        let tab = &ws.tabs[i];
        tabs.push(
            TabState {
                title: tab.title.clone(),
                pane_id: None,
                pane_tree: save_tree(&tab.pane_tree, sm, home),
            },
        );
        i = i + 1;
    }
    Workspace {
        id: ws.id,
        name: ws.name.clone(),
        root_paths: Vec::new(),
        tabs,
        active_tab: ws.active_tab,
    }
}

impl SessionManager {
    /// The saved form of a layout that a window describes.
    pub fn snapshot_workspace(&self, layout: &WorkspaceLayout, home: &Option<String>) -> (state:
        WorkspaceState)
        ensures
            state.version == 1,
            state.active_workspace == layout.active_workspace,
            state.window_width == layout.window_width,
            state.window_height == layout.window_height,
            !state.pinned,
            state.workspaces@.len() == layout.workspaces@.len(),
            forall|w: int|
                0 <= w < layout.workspaces@.len() ==> described_workspace_saved(
                    #[trigger] state.workspaces@[w],
                    layout.workspaces@[w],
                    self@.panes,
                    optional_text(*home),
                ),
    {
        let get_cwd = |id: PaneId| -> (cwd: String)
            ensures
                cwd@ == saved_cwd(self@.panes, id, optional_text(*home)),
            { cwd_to_save(self, id, home) };
        let ghost f = get_cwd;
        let state = build_workspace_state(layout, get_cwd);
        proof {
            assert forall|w: int|
                0 <= w < layout.workspaces@.len() implies described_workspace_saved(
                #[trigger] state.workspaces@[w],
                layout.workspaces@[w],
                self@.panes,
                optional_text(*home),
            ) by {
                let saved = state.workspaces@[w];
                let entry = layout.workspaces@[w];
                assert(workspace_built(saved, entry, f));
                assert forall|i: int| 0 <= i < entry.tabs@.len() implies tree_saved(
                    (#[trigger] saved.tabs@[i]).pane_tree,
                    entry.tabs@[i].pane_tree@,
                    self@.panes,
                    optional_text(*home),
                    false,
                ) by {
                    lemma_built_is_saved(
                        saved.tabs@[i].pane_tree,
                        entry.tabs@[i].pane_tree@,
                        f,
                        self@.panes,
                        optional_text(*home),
                    );
                }
            }
        }
        state
    }

    /// The saved form of the live session. The directories of its panes are
    /// brought up to date by `set_pane_cwd` before. There is no window here, so
    /// the form has no window size.
    pub fn snapshot_to_workspace_state(&self, home: &Option<String>) -> (state: WorkspaceState)
        ensures
            state.version == 1,
            state.active_workspace == self@.layout.active_workspace,
            state.window_width is None,
            state.window_height is None,
            state.pinned == self@.pinned,
            state.workspaces@.len() == self@.layout.workspaces.len(),
            forall|w: int|
                0 <= w < self@.layout.workspaces.len() ==> live_workspace_saved(
                    #[trigger] state.workspaces@[w],
                    self@.layout.workspaces[w],
                    self@.panes,
                    optional_text(*home),
                ),
    {
        let layout = self.layout();
        let mut workspaces: Vec<Workspace> = Vec::new();
        let mut w: usize = 0;
        while w < layout.workspaces.len()
            invariant
                w <= layout.workspaces@.len(),
                workspaces@.len() == w,
                forall|v: int|
                    0 <= v < w ==> live_workspace_saved(
                        #[trigger] workspaces@[v],
                        layout@.workspaces[v],
                        self@.panes,
                        optional_text(*home),
                    ),
            decreases layout.workspaces@.len() - w,
        {
            assert(layout@.workspaces[w as int] == layout.workspaces@[w as int]@);
            workspaces.push(save_live_workspace(&layout.workspaces[w], self, home));
            w = w + 1;
        }
        WorkspaceState {
            version: 1,
            workspaces,
            active_workspace: layout.active_workspace,
            window_width: None,
            window_height: None,
            pinned: self.is_pinned(),
        }
    }
}

} // verus!
