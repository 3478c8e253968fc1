//! The tabs of one tab container: which panels it shows, under which
//! titles, and which one is active.
//!
//! Where each tab is drawn on screen is computed outside this module; here
//! each tab keeps the flag that marks the active one in step with the
//! active index.

use vstd::prelude::*;
use crate::layout::{PanelId, TabId};
use crate::layout_tree::{insert_position, active_after_removal};

verus! {

/// One tab.
#[derive(Debug)]
pub struct TabInfo {
    pub panel_id: PanelId,
    pub title: String,
    pub can_close: bool,
    pub active: bool,
}

/// What a tab shows, without its active flag.
pub open spec fn tab_content(t: TabInfo) -> (PanelId, Seq<char>, bool) {
    (t.panel_id, t.title@, t.can_close)
}

/// The tabs' contents, in order.
pub open spec fn contents(tabs: Seq<TabInfo>) -> Seq<(PanelId, Seq<char>, bool)> {
    tabs.map_values(|t: TabInfo| tab_content(t))
}

/// Exactly the tab at `active` carries the active flag.
pub open spec fn flags_follow(tabs: Seq<TabInfo>, active: int) -> bool {
    forall|i: int| 0 <= i < tabs.len() ==> (#[trigger] tabs[i]).active == (i == active)
}

/// The bar of a tab container.
#[derive(Debug)]
pub struct TabBar {
    pub tab_id: TabId,
    pub tabs: Vec<TabInfo>,
    pub active_tab: usize,
}

/// `tabs` with each active flag set to whether the tab sits at `active`.
fn with_active_flags(tabs: Vec<TabInfo>, active: usize) -> (r: Vec<TabInfo>)
    ensures
        contents(r@) == contents(tabs@),
        flags_follow(r@, active as int),
{
    let ghost orig = tabs@;
    let n = tabs.len();
    let mut tabs = tabs;
    let mut reversed: Vec<TabInfo> = Vec::new();
    while tabs.len() > 0
        invariant
            tabs@.len() + reversed@.len() == n,
            n == orig.len(),
            tabs@ == orig.subrange(0, tabs@.len() as int),
            forall|j: int| 0 <= j < reversed@.len() ==> reversed@[j] == orig[n - 1 - j],
        decreases tabs@.len(),
    {
        let t = tabs.pop().unwrap();
        reversed.push(t);
    }
    let mut out: Vec<TabInfo> = Vec::new();
    let mut i: usize = 0;
    while reversed.len() > 0
        invariant
            out@.len() == i,
            reversed@.len() + i == n,
            n == orig.len(),
            forall|j: int| 0 <= j < reversed@.len() ==> reversed@[j] == orig[n - 1 - j],
            forall|j: int|
                0 <= j < i ==> tab_content(#[trigger] out@[j]) == tab_content(orig[j]) && out@[j].active
                    == (j == active),
        decreases reversed@.len(),
    {
        let mut t = reversed.pop().unwrap();
        t.active = i == active;
        out.push(t);
        i = i + 1;
    }
    assert(contents(out@) =~= contents(orig));
    out
}

impl TabBar {
    /// A bar for container `tab_id` showing the panels with their titles,
    /// paired in order (the longer list is cut to the shorter); the first
    /// tab is active.
    pub fn new(tab_id: TabId, panel_ids: Vec<PanelId>, panel_titles: Vec<String>) -> (r: Self)
        ensures
            r.tab_id == tab_id,
            r.active_tab == 0,
            r.tabs@.len() == if panel_ids@.len() < panel_titles@.len() {
                panel_ids@.len()
            } else {
                panel_titles@.len()
            },
            forall|i: int|
                0 <= i < r.tabs@.len() ==> (#[trigger] r.tabs@[i]).panel_id == panel_ids@[i]
                    && r.tabs@[i].title@ == panel_titles@[i]@ && r.tabs@[i].can_close
                    && r.tabs@[i].active == (i == 0),
    {
        let n = if panel_ids.len() < panel_titles.len() {
            panel_ids.len()
        } else {
            panel_titles.len()
        };
        let mut tabs: Vec<TabInfo> = Vec::new();
        let mut i: usize = 0;
        while i < n
            invariant
                i <= n,
                n <= panel_ids@.len(),
                n <= panel_titles@.len(),
                tabs@.len() == i,
                forall|j: int|
                    0 <= j < i ==> (#[trigger] tabs@[j]).panel_id == panel_ids@[j] && tabs@[j].title@
                        == panel_titles@[j]@ && tabs@[j].can_close && tabs@[j].active == (j == 0),
            decreases n - i,
        {
            tabs.push(
                TabInfo {
                    panel_id: panel_ids[i],
                    title: panel_titles[i].clone(),
                    can_close: true,
                    active: i == 0,
                },
            );
            i = i + 1;
        }
        TabBar { tab_id, tabs, active_tab: 0 }
    }

    /// Makes tab `index` the active one; an index past the tabs is ignored.
    pub fn set_active_tab(&mut self, index: usize)
        ensures
            final(self).tab_id == old(self).tab_id,
            contents(final(self).tabs@) == contents(old(self).tabs@),
            index < old(self).tabs@.len() ==> final(self).active_tab == index && flags_follow(
                final(self).tabs@,
                index as int,
            ),
            index >= old(self).tabs@.len() ==> *final(self) == *old(self),
    {
        if index < self.tabs.len() {
            self.active_tab = index;
            let mut tabs: Vec<TabInfo> = Vec::new();
            std::mem::swap(&mut tabs, &mut self.tabs);
            self.tabs = with_active_flags(tabs, index);
        }
    }

    /// Inserts a closable tab at `index` (clamped to the end; the end when
    /// `None`). The active index stays; the flags follow it.
    pub fn add_tab(&mut self, panel_id: PanelId, title: String, index: Option<usize>)
        ensures
            final(self).tab_id == old(self).tab_id,
            final(self).active_tab == old(self).active_tab,
            contents(final(self).tabs@) == contents(old(self).tabs@).insert(
                insert_position(index, old(self).tabs@.len()) as int,
                (panel_id, title@, true),
            ),
            flags_follow(final(self).tabs@, final(self).active_tab as int),
    {
        let len = self.tabs.len();
        let at: usize = match index {
            Some(i) => if i < len {
                i
            } else {
                len
            },
            None => len,
        };
        let ghost before = self.tabs@;
        self.tabs.insert(at, TabInfo { panel_id, title, can_close: true, active: false });
        assert(contents(self.tabs@) =~= contents(before).insert(at as int, (panel_id, title@, true)));
        let mut tabs: Vec<TabInfo> = Vec::new();
        std::mem::swap(&mut tabs, &mut self.tabs);
        self.tabs = with_active_flags(tabs, self.active_tab);
    }

    /// Removes tab `index` and gives back its panel; the active index moves
    /// with its panel, or to the last tab when the active one was the last.
    pub fn remove_tab(&mut self, index: usize) -> (r: Option<PanelId>)
        ensures
            final(self).tab_id == old(self).tab_id,
            index < old(self).tabs@.len() ==> {
                &&& r == Some(old(self).tabs@[index as int].panel_id)
                &&& contents(final(self).tabs@) == contents(old(self).tabs@).remove(index as int)
                &&& final(self).active_tab == active_after_removal(
                    old(self).active_tab as nat,
                    index as nat,
                    (old(self).tabs@.len() - 1) as nat,
                )
                &&& flags_follow(final(self).tabs@, final(self).active_tab as int)
            },
            index >= old(self).tabs@.len() ==> r is None && *final(self) == *old(self),
    {
        if index < self.tabs.len() {
            let ghost before = self.tabs@;
            let removed = self.tabs.remove(index);
            assert(contents(self.tabs@) =~= contents(before).remove(index as int));
            let len = self.tabs.len();
            if index < self.active_tab {
                self.active_tab = self.active_tab - 1;
            } else if index == self.active_tab && self.active_tab >= len && len > 0 {
                self.active_tab = len - 1;
            }
            let mut tabs: Vec<TabInfo> = Vec::new();
            std::mem::swap(&mut tabs, &mut self.tabs);
            self.tabs = with_active_flags(tabs, self.active_tab);
            Some(removed.panel_id)
        } else {
            None
        }
    }

    /// The panel of the active tab, if the active index names a tab.
    pub fn get_active_panel(&self) -> (r: Option<PanelId>)
        ensures
            r == if self.active_tab < self.tabs@.len() {
                Some(self.tabs@[self.active_tab as int].panel_id)
            } else {
                None
            },
    {
        if self.active_tab < self.tabs.len() {
            Some(self.tabs[self.active_tab].panel_id)
        } else {
            None
        }
    }

    /// The panels of the tabs, in order.
    pub fn get_all_panels(&self) -> (r: Vec<PanelId>)
        ensures
            r@ == self.tabs@.map_values(|t: TabInfo| t.panel_id),
    {
        let mut out: Vec<PanelId> = Vec::new();
        let mut i: usize = 0;
        while i < self.tabs.len()
            invariant
                i <= self.tabs@.len(),
                out@ == self.tabs@.subrange(0, i as int).map_values(|t: TabInfo| t.panel_id),
            decreases self.tabs@.len() - i,
        {
            out.push(self.tabs[i].panel_id);
            i = i + 1;
            assert(out@ =~= self.tabs@.subrange(0, i as int).map_values(|t: TabInfo| t.panel_id));
        }
        assert(self.tabs@.subrange(0, i as int) =~= self.tabs@);
        out
    }

    /// Whether the bar has no tab.
    pub fn is_empty(&self) -> (r: bool)
        ensures
            r == (self.tabs@.len() == 0),
    {
        self.tabs.len() == 0
    }
}

} // verus!
