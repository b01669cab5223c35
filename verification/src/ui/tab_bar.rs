//! The bar of tabs at the top of a window.

use vstd::prelude::*;

use crate::ui::tab::TabId;

verus! {

/// One entry of the bar.
#[derive(Debug, PartialEq, Eq)]
pub struct TabBarEntry {
    pub id: TabId,
    pub title: String,
    pub active: bool,
}

/// The bar.
#[derive(Debug, PartialEq, Eq)]
pub struct TabBar {
    pub entries: Vec<TabBarEntry>,
}

impl TabBar {
    /// An empty bar.
    pub fn new() -> (bar: TabBar)
        ensures
            bar.entries@.len() == 0,
    {
        TabBar { entries: Vec::new() }
    }

    /// Shows the given tabs; entries with the active id are marked.
    pub fn update(&mut self, tabs: &[(TabId, String)], active_id: TabId)
        ensures
            final(self).entries@.len() == tabs@.len(),
            forall|i: int|
                0 <= i < tabs@.len() ==> {
                    &&& (#[trigger] final(self).entries@[i]).id == tabs@[i].0
                    &&& final(self).entries@[i].title@ == tabs@[i].1@
                    &&& final(self).entries@[i].active == (tabs@[i].0 == active_id)
                },
    {
        let mut entries: Vec<TabBarEntry> = Vec::new();
        let mut i: usize = 0;
        while i < tabs.len()
            invariant
                i <= tabs@.len(),
                entries@.len() == i,
                forall|j: int|
                    0 <= j < i ==> {
                        &&& (#[trigger] entries@[j]).id == tabs@[j].0
                        &&& entries@[j].title@ == tabs@[j].1@
                        &&& entries@[j].active == (tabs@[j].0 == active_id)
                    },
            decreases tabs@.len() - i,
        {
            let tab = &tabs[i];
            entries.push(
                TabBarEntry { id: tab.0, title: tab.1.clone(), active: tab.0 == active_id },
            );
            i = i + 1;
        }
        self.entries = entries;
    }
}

impl Default for TabBar {
    fn default() -> (bar: TabBar)
        ensures
            bar.entries@.len() == 0,
    {
        TabBar::new()
    }
}

} // verus!
