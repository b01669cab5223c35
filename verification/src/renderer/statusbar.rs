//! The bar of tabs at the top of a window.

use vstd::prelude::*;

verus! {

/// What is shown of a tab.
#[derive(Debug, PartialEq, Eq)]
pub struct TabInfo {
    pub title: String,
}

/// The tabs, and which of them is shown.
#[derive(Debug, PartialEq, Eq)]
pub struct TabBarState {
    pub tabs: Vec<TabInfo>,
    pub active_index: usize,
}

/// The first tab that is marked, from `i` on; the first of all where none is.
pub open spec fn first_marked(tabs: Seq<(String, bool)>, i: int) -> int
    decreases tabs.len() - i,
{
    if i >= tabs.len() {
        0
    } else if tabs[i].1 {
        i
    } else {
        first_marked(tabs, i + 1)
    }
}

impl TabBarState {
    /// The titles of the tabs, of which one is marked as shown.
    pub fn from_titles(tabs: Vec<(String, bool)>) -> (s: TabBarState)
        ensures
            s.tabs@.len() == tabs@.len(),
            forall|i: int| 0 <= i < tabs@.len() ==> (#[trigger] s.tabs@[i]).title@ == tabs@[i].0@,
            s.active_index == first_marked(tabs@, 0),
    {
        let mut active: usize = 0;
        let mut found = false;
        let mut infos: Vec<TabInfo> = Vec::new();
        let mut i: usize = 0;
        while i < tabs.len()
            invariant
                i <= tabs@.len(),
                infos@.len() == i,
                forall|j: int| 0 <= j < i ==> (#[trigger] infos@[j]).title@ == tabs@[j].0@,
                found ==> active == first_marked(tabs@, 0),
                !found ==> active == 0 && first_marked(tabs@, 0) == first_marked(tabs@, i as int),
            decreases tabs@.len() - i,
        {
            if !found && tabs[i].1 {
                active = i;
                found = true;
            }
            infos.push(TabInfo { title: tabs[i].0.clone() });
            i = i + 1;
        }
        TabBarState { tabs: infos, active_index: active }
    }
}

} // verus!
