//! What a session tells its subscribers.

use vstd::prelude::*;

use crate::ids::{PaneId, Uuid};

verus! {

/// A change of a session.
#[derive(Clone, Debug, PartialEq, Eq)]
pub enum SessionEvent {
    /// Raw output of a pane.
    PtyOutput { pane_id: PaneId, data: Vec<u8> },
    /// A new pane was created.
    PaneCreated { pane_id: PaneId },
    /// A pane was closed.
    PaneClosed { pane_id: PaneId },
    /// A new tab was created in a workspace.
    TabCreated { workspace_idx: usize, tab_id: Uuid, pane_id: PaneId },
    /// A tab was closed with all its panes.
    TabClosed { workspace_idx: usize, tab_id: Uuid },
    /// A pane was split; `direction` is `"horizontal"` or `"vertical"`.
    PaneSplit { tab_id: Uuid, parent_pane_id: PaneId, new_pane_id: PaneId, direction: String },
    /// A tab was moved within its workspace.
    TabMoved { workspace_idx: usize, tab_id: Uuid, new_index: usize },
    /// Another tab of a workspace became active.
    ActiveTabChanged { workspace_idx: usize, tab_idx: usize },
    /// Another workspace became active.
    ActiveWorkspaceChanged { workspace_idx: usize },
    /// A new workspace was created.
    WorkspaceCreated { workspace_idx: usize, workspace_id: Uuid, name: String },
    /// A workspace got another name.
    WorkspaceRenamed { workspace_idx: usize, workspace_id: Uuid, name: String },
    /// A workspace was deleted, after all its panes were closed.
    WorkspaceDeleted { workspace_idx: usize, workspace_id: Uuid },
    /// The accent colour of a workspace was set or cleared.
    WorkspaceColorChanged { workspace_idx: usize, workspace_id: Uuid, color: Option<String> },
    /// Two workspaces changed places.
    WorkspacesReordered {
        from_idx: usize,
        to_idx: usize,
        from_workspace_id: Uuid,
        to_workspace_id: Uuid,
    },
}

/// An event as a mathematical value.
pub ghost enum EventModel {
    PtyOutput { pane_id: PaneId, data: Seq<u8> },
    PaneCreated { pane_id: PaneId },
    PaneClosed { pane_id: PaneId },
    TabCreated { workspace_idx: usize, tab_id: Uuid, pane_id: PaneId },
    TabClosed { workspace_idx: usize, tab_id: Uuid },
    PaneSplit { tab_id: Uuid, parent_pane_id: PaneId, new_pane_id: PaneId, direction: Seq<char> },
    TabMoved { workspace_idx: usize, tab_id: Uuid, new_index: usize },
    ActiveTabChanged { workspace_idx: usize, tab_idx: usize },
    ActiveWorkspaceChanged { workspace_idx: usize },
    WorkspaceCreated { workspace_idx: usize, workspace_id: Uuid, name: Seq<char> },
    WorkspaceRenamed { workspace_idx: usize, workspace_id: Uuid, name: Seq<char> },
    WorkspaceDeleted { workspace_idx: usize, workspace_id: Uuid },
    WorkspaceColorChanged { workspace_idx: usize, workspace_id: Uuid, color: Option<Seq<char>> },
    WorkspacesReordered {
        from_idx: usize,
        to_idx: usize,
        from_workspace_id: Uuid,
        to_workspace_id: Uuid,
    },
}

impl View for SessionEvent {
    type V = EventModel;

    open spec fn view(&self) -> EventModel {
        match *self {
            SessionEvent::PtyOutput { pane_id, data } => EventModel::PtyOutput {
                pane_id,
                data: data@,
            },
            SessionEvent::PaneCreated { pane_id } => EventModel::PaneCreated { pane_id },
            SessionEvent::PaneClosed { pane_id } => EventModel::PaneClosed { pane_id },
            SessionEvent::TabCreated { workspace_idx, tab_id, pane_id } => EventModel::TabCreated {
                workspace_idx,
                tab_id,
                pane_id,
            },
            SessionEvent::TabClosed { workspace_idx, tab_id } => EventModel::TabClosed {
                workspace_idx,
                tab_id,
            },
            SessionEvent::PaneSplit { tab_id, parent_pane_id, new_pane_id, direction } => {
                EventModel::PaneSplit {
                    tab_id,
                    parent_pane_id,
                    new_pane_id,
                    direction: direction@,
                }
            },
            SessionEvent::TabMoved { workspace_idx, tab_id, new_index } => EventModel::TabMoved {
                workspace_idx,
                tab_id,
                new_index,
            },
            SessionEvent::ActiveTabChanged { workspace_idx, tab_idx } => {
                EventModel::ActiveTabChanged { workspace_idx, tab_idx }
            },
            SessionEvent::ActiveWorkspaceChanged { workspace_idx } => {
                EventModel::ActiveWorkspaceChanged { workspace_idx }
            },
            SessionEvent::WorkspaceCreated { workspace_idx, workspace_id, name } => {
                EventModel::WorkspaceCreated { workspace_idx, workspace_id, name: name@ }
            },
            SessionEvent::WorkspaceRenamed { workspace_idx, workspace_id, name } => {
                EventModel::WorkspaceRenamed { workspace_idx, workspace_id, name: name@ }
            },
            SessionEvent::WorkspaceDeleted { workspace_idx, workspace_id } => {
                EventModel::WorkspaceDeleted { workspace_idx, workspace_id }
            },
            SessionEvent::WorkspaceColorChanged { workspace_idx, workspace_id, color } => {
                EventModel::WorkspaceColorChanged {
                    workspace_idx,
                    workspace_id,
                    color: match color {
                        Some(c) => Some(c@),
                        None => None,
                    },
                }
            },
            SessionEvent::WorkspacesReordered {
                from_idx,
                to_idx,
                from_workspace_id,
                to_workspace_id,
            } => EventModel::WorkspacesReordered {
                from_idx,
                to_idx,
                from_workspace_id,
                to_workspace_id,
            },
        }
    }
}

} // verus!
