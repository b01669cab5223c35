//! Panes of a session.

use vstd::prelude::*;

use crate::ids::PaneId;
use crate::session::byte_log::{ByteLog, LogModel};
use crate::session::model::PaneModel;

verus! {

/// The record of a live pane.
#[derive(Debug, PartialEq, Eq)]
pub struct PaneState {
    pub id: PaneId,
    /// Id of the child process, where it is known.
    pub pid: Option<u32>,
    /// Last known working directory.
    pub cwd: String,
    /// Last known title.
    pub title: String,
    pub rows: u16,
    pub cols: u16,
}

/// What callers are told of a pane.
#[derive(Debug, PartialEq, Eq)]
pub struct PaneInfo {
    pub id: PaneId,
    pub pid: Option<u32>,
    pub rows: u16,
    pub cols: u16,
    pub cwd: String,
    pub title: String,
}

/// The byte log of one pane.
#[derive(Debug, PartialEq, Eq)]
pub struct PaneLog {
    pub pane_id: PaneId,
    pub log: ByteLog,
}

impl View for PaneState {
    type V = PaneModel;

    open spec fn view(&self) -> PaneModel {
        PaneModel {
            id: self.id,
            pid: self.pid,
            cwd: self.cwd@,
            title: self.title@,
            rows: self.rows,
            cols: self.cols,
        }
    }
}

impl View for PaneInfo {
    type V = PaneModel;

    open spec fn view(&self) -> PaneModel {
        PaneModel {
            id: self.id,
            pid: self.pid,
            cwd: self.cwd@,
            title: self.title@,
            rows: self.rows,
            cols: self.cols,
        }
    }
}

impl View for PaneLog {
    type V = (PaneId, LogModel);

    open spec fn view(&self) -> (PaneId, LogModel) {
        (self.pane_id, self.log@)
    }
}

} // verus!
