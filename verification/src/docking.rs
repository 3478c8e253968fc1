//! The docking manager: the layout tree together with the panels that are
//! registered, each under its title.
//!
//! Panels themselves (what they draw, how they take input) live with the
//! caller; the manager keeps what its decisions read of them, their
//! identifiers and titles.

use vstd::prelude::*;
use crate::layout::{PanelId, TabId, NodeId, SplitDirection, DockPosition, BuiltinPanelId, builtin_panel_id};
use crate::layout_tree::{LayoutNode, LayoutModel, LayoutError};

verus! {

broadcast use vstd::string::group_string_axioms;

/// Where to dock a panel.
#[derive(Debug, Clone, Copy, PartialEq, Eq, Structural)]
pub enum DockTarget {
    /// As a tab of an existing container, at `index` (the end when `None`).
    Tab { tab_id: TabId, index: Option<usize> },
    /// In a new split of a node; `ratio_bits` is the `f32` ratio as bits.
    Split { target_node: NodeId, direction: SplitDirection, ratio_bits: u32 },
    /// Beside a node.
    Position { target_node: NodeId, position: DockPosition },
}

/// Registered panels as a map from identifier to title; a later entry
/// for the same identifier wins.
pub open spec fn title_map(s: Seq<(PanelId, Seq<char>)>) -> Map<PanelId, Seq<char>>
    decreases s.len(),
{
    if s.len() == 0 {
        Map::empty()
    } else {
        title_map(s.drop_last()).insert(s.last().0, s.last().1)
    }
}

/// The titles of those of `ids` that `titles` knows, in order.
pub open spec fn registered_titles(ids: Seq<PanelId>, titles: Map<PanelId, Seq<char>>) -> Seq<Seq<char>>
    decreases ids.len(),
{
    if ids.len() == 0 {
        Seq::empty()
    } else {
        let rest = registered_titles(ids.drop_last(), titles);
        if titles.dom().contains(ids.last()) {
            rest.push(titles[ids.last()])
        } else {
            rest
        }
    }
}

/// The identifiers of registered panels.
pub open spec fn ids_of(s: Seq<(PanelId, Seq<char>)>) -> Seq<PanelId> {
    s.map_values(|e: (PanelId, Seq<char>)| e.0)
}

/// The panel a tab container shows, if its active index names one.
pub open spec fn shown_panel(m: LayoutModel) -> Option<PanelId> {
    match m {
        LayoutModel::Tabs { active_tab, panels, .. } => if active_tab < panels.len() {
            Some(panels[active_tab as int])
        } else {
            None
        },
        _ => None,
    }
}

/// The first panel shown by a tab container of the tree, left subtrees first.
pub open spec fn first_shown_panel(m: LayoutModel) -> Option<PanelId>
    decreases m,
{
    match m {
        LayoutModel::Split { left, right, .. } => match first_shown_panel(*left) {
            Some(p) => Some(p),
            None => first_shown_panel(*right),
        },
        LayoutModel::Tabs { .. } => shown_panel(m),
        LayoutModel::Empty => None,
    }
}

/// The panel that receives input: the one the root shows when the root is
/// a tab container, else the first shown in the left subtree of a root split.
pub open spec fn active_panel_of(m: LayoutModel) -> Option<PanelId> {
    match m {
        LayoutModel::Split { left, .. } => first_shown_panel(*left),
        _ => shown_panel(m),
    }
}

/// A panel shown by some tab container of a tree is one of its panels.
proof fn lemma_shown_panel_is_in_tree(m: LayoutModel)
    ensures
        first_shown_panel(m) matches Some(p) ==> m.panels().contains(p),
    decreases m,
{
    match m {
        LayoutModel::Split { left, right, .. } => {
            lemma_shown_panel_is_in_tree(*left);
            lemma_shown_panel_is_in_tree(*right);
            match first_shown_panel(*left) {
                Some(p) => {
                    let k = choose|k: int| 0 <= k < left.panels().len() && left.panels()[k] == p;
                    assert(m.panels()[k] == p);
                },
                None => {
                    if let Some(p) = first_shown_panel(*right) {
                        let k = choose|k: int| 0 <= k < right.panels().len() && right.panels()[k] == p;
                        assert(m.panels()[left.panels().len() + k] == p);
                    }
                },
            }
        },
        LayoutModel::Tabs { active_tab, panels, .. } => {
            if active_tab < panels.len() {
                assert(m.panels()[active_tab as int] == panels[active_tab as int]);
            }
        },
        LayoutModel::Empty => {},
    }
}

/// The active panel of a layout whose root is a tab container is the panel
/// at its active index, whatever that index is, and there is none when the
/// index is past the panels; an empty layout has none; under a root split
/// it is a panel of the left subtree, the one at the active index when the
/// left subtree is a tab container.
pub proof fn law_active_panel(m: LayoutModel)
    ensures
        m matches LayoutModel::Tabs { active_tab, panels, .. } ==> active_panel_of(m) == (
        if active_tab < panels.len() {
            Some(panels[active_tab as int])
        } else {
            None
        }),
        m is Empty ==> active_panel_of(m) is None,
        m matches LayoutModel::Split { left, .. } ==> (active_panel_of(m) matches Some(p)
            ==> left.panels().contains(p)),
        m matches LayoutModel::Split { left, .. } ==> (*left matches LayoutModel::Tabs {
            active_tab,
            panels,
            ..
        } ==> active_panel_of(m) == (if active_tab < panels.len() {
            Some(panels[active_tab as int])
        } else {
            None
        })),
{
    if let LayoutModel::Split { left, .. } = m {
        lemma_shown_panel_is_in_tree(*left);
    }
}

proof fn lemma_title_map_keys(s: Seq<(PanelId, Seq<char>)>, k: PanelId)
    ensures
        title_map(s).dom().contains(k) <==> ids_of(s).contains(k),
    decreases s.len(),
{
    if s.len() > 0 {
        lemma_title_map_keys(s.drop_last(), k);
        assert(ids_of(s.drop_last()) == ids_of(s).drop_last());
        if ids_of(s.drop_last()).contains(k) {
            let i = choose|i: int| 0 <= i < ids_of(s.drop_last()).len() && ids_of(s.drop_last())[i] == k;
            assert(ids_of(s)[i] == k);
        }
        if ids_of(s).contains(k) && s.last().0 != k {
            let i = choose|i: int| 0 <= i < ids_of(s).len() && ids_of(s)[i] == k;
            assert(i < s.len() - 1);
            assert(ids_of(s.drop_last())[i] == k);
        }
        if s.last().0 == k {
            assert(ids_of(s)[s.len() - 1] == k);
        }
    }
}

proof fn lemma_title_map_update(s: Seq<(PanelId, Seq<char>)>, i: int, t: Seq<char>)
    requires
        0 <= i < s.len(),
        ids_of(s).no_duplicates(),
    ensures
        title_map(s.update(i, (s[i].0, t))) == title_map(s).insert(s[i].0, t),
    decreases s.len(),
{
    let u = s.update(i, (s[i].0, t));
    if i == s.len() - 1 {
        assert(u.drop_last() == s.drop_last());
        assert(title_map(s).insert(s[i].0, t) =~= title_map(s.drop_last()).insert(s[i].0, t));
    } else {
        assert(ids_of(s.drop_last()).no_duplicates()) by {
            assert(ids_of(s.drop_last()) == ids_of(s).drop_last());
        }
        lemma_title_map_update(s.drop_last(), i, t);
        assert(u.drop_last() == s.drop_last().update(i, (s[i].0, t)));
        assert(s.last().0 != s[i].0) by {
            assert(ids_of(s)[i] == s[i].0);
            assert(ids_of(s)[s.len() - 1] == s.last().0);
        }
        assert(title_map(u) =~= title_map(s).insert(s[i].0, t));
    }
}

proof fn lemma_title_map_remove(s: Seq<(PanelId, Seq<char>)>, i: int)
    requires
        0 <= i < s.len(),
        ids_of(s).no_duplicates(),
    ensures
        title_map(s.remove(i)) == title_map(s).remove(s[i].0),
    decreases s.len(),
{
    let k = s[i].0;
    if i == s.len() - 1 {
        assert(s.remove(i) == s.drop_last());
        lemma_title_map_keys(s.drop_last(), k);
        assert(!ids_of(s.drop_last()).contains(k)) by {
            if ids_of(s.drop_last()).contains(k) {
                let j = choose|j: int| 0 <= j < ids_of(s.drop_last()).len() && ids_of(s.drop_last())[j] == k;
                assert(ids_of(s)[j] == k);
                assert(ids_of(s)[i] == k);
            }
        }
        assert(title_map(s.drop_last()) =~= title_map(s).remove(k));
    } else {
        assert(ids_of(s.drop_last()).no_duplicates()) by {
            assert(ids_of(s.drop_last()) == ids_of(s).drop_last());
        }
        lemma_title_map_remove(s.drop_last(), i);
        assert(s.remove(i).drop_last() == s.drop_last().remove(i));
        assert(s.remove(i).last() == s.last());
        assert(s.last().0 != k) by {
            assert(ids_of(s)[i] == k);
            assert(ids_of(s)[s.len() - 1] == s.last().0);
        }
        assert(title_map(s.remove(i)) =~= title_map(s).remove(k));
    }
}

/// Unregistering a panel that was registered afresh gives back the titles
/// from before.
pub proof fn law_remove_undoes_register(titles: Map<PanelId, Seq<char>>, panel_id: PanelId, title: Seq<char>)
    requires
        !titles.dom().contains(panel_id),
    ensures
        titles.insert(panel_id, title).remove(panel_id) == titles,
{
    assert(titles.insert(panel_id, title).remove(panel_id) =~= titles);
}

/// The panel docked into an empty layout, as the single tab of a new
/// container, is the one that receives input.
pub proof fn law_first_panel_is_active(tab_id: TabId, panel_id: PanelId)
    ensures
        active_panel_of(LayoutModel::Tabs { id: tab_id, active_tab: 0, panels: seq![panel_id] })
            == Some(panel_id),
{
}

/// The layout tree and the registered panels.
pub struct DockingManager {
    root_node: LayoutNode,
    panels: Vec<(PanelId, String)>,
}

impl DockingManager {
    /// The layout.
    pub closed spec fn layout(&self) -> LayoutModel {
        self.root_node@
    }

    /// The registered panels with their titles, in registration order.
    pub closed spec fn entries(&self) -> Seq<(PanelId, Seq<char>)> {
        self.panels@.map_values(|e: (PanelId, String)| (e.0, e.1@))
    }

    /// Titles of the registered panels.
    pub open spec fn titles(&self) -> Map<PanelId, Seq<char>> {
        title_map(self.entries())
    }

    /// The layout is well formed and no panel is registered twice.
    pub open spec fn wf(&self) -> bool {
        &&& self.layout().wf()
        &&& ids_of(self.entries()).no_duplicates()
    }

    /// An empty layout and no panels.
    pub fn new() -> (r: Self)
        ensures
            r.wf(),
            r.layout() == LayoutModel::Empty,
            r.entries() == Seq::<(PanelId, Seq<char>)>::empty(),
    {
        let r = DockingManager { root_node: LayoutNode::empty(), panels: Vec::new() };
        assert(r.entries() =~= Seq::<(PanelId, Seq<char>)>::empty());
        r
    }

    /// One tab container showing the scene editor and the property
    /// inspector; no panels registered.
    pub fn with_default_layout() -> (r: Self)
        ensures
            r.wf(),
            r.layout() matches LayoutModel::Tabs { active_tab, panels, .. } && active_tab == 0
                && panels == seq![
                builtin_panel_id(BuiltinPanelId::SceneEditor),
                builtin_panel_id(BuiltinPanelId::PropertyInspector),
            ],
            r.entries() == Seq::<(PanelId, Seq<char>)>::empty(),
    {
        let panels = vec![
            BuiltinPanelId::SceneEditor.panel_id(),
            BuiltinPanelId::PropertyInspector.panel_id(),
        ];
        let r = DockingManager { root_node: LayoutNode::tabs(panels), panels: Vec::new() };
        assert(r.entries() =~= Seq::<(PanelId, Seq<char>)>::empty());
        r
    }

    fn position(&self, panel_id: PanelId) -> (r: Option<usize>)
        ensures
            match r {
                Some(i) => i < self.entries().len() && self.entries()[i as int].0 == panel_id,
                None => !ids_of(self.entries()).contains(panel_id),
            },
    {
        let mut i: usize = 0;
        while i < self.panels.len()
            invariant
                i <= self.panels@.len(),
                forall|j: int| 0 <= j < i ==> self.panels@[j].0 != panel_id,
            decreases self.panels@.len() - i,
        {
            if self.panels[i].0 == panel_id {
                return Some(i);
            }
            i = i + 1;
        }
        proof {
            if ids_of(self.entries()).contains(panel_id) {
                let j = choose|j: int| 0 <= j < ids_of(self.entries()).len() && ids_of(self.entries())[j] == panel_id;
                assert(self.panels@[j].0 == panel_id);
            }
        }
        None
    }

    /// Registers a panel under its title (replacing the title of a panel
    /// registered before); into an empty layout the panel comes as the
    /// single tab of a new container.
    pub fn add_panel(&mut self, panel_id: PanelId, title: String)
        requires
            old(self).wf(),
        ensures
            final(self).wf(),
            final(self).titles() == old(self).titles().insert(panel_id, title@),
            old(self).layout().panels().len() == 0 ==> (final(self).layout() matches LayoutModel::Tabs {
                active_tab,
                panels,
                ..
            } && active_tab == 0 && panels == seq![panel_id]),
            old(self).layout().panels().len() != 0 ==> final(self).layout() == old(self).layout(),
    {
        let ghost before = self.entries();
        match self.position(panel_id) {
            Some(i) => {
                let t = title;
                let ghost tv = t@;
                self.panels.set(i, (panel_id, t));
                proof {
                    assert(self.entries() =~= before.update(i as int, (panel_id, tv)));
                    lemma_title_map_update(before, i as int, tv);
                    assert(ids_of(self.entries()) =~= ids_of(before));
                }
            },
            None => {
                let ghost tv = title@;
                self.panels.push((panel_id, title));
                proof {
                    assert(self.entries() =~= before.push((panel_id, tv)));
                    assert(self.entries().drop_last() == before);
                    assert(ids_of(self.entries()) =~= ids_of(before).push(panel_id));
                }
            },
        }
        if self.root_node.is_empty() {
            self.root_node = LayoutNode::single_tab(panel_id);
        }
    }

    /// Takes a panel out of the layout (if it is shown), compacts the
    /// layout, and unregisters the panel, giving back its title.
    pub fn remove_panel(&mut self, panel_id: PanelId) -> (r: Option<String>)
        requires
            old(self).wf(),
        ensures
            final(self).wf(),
            final(self).layout() == match old(self).layout().remove_panel(panel_id) {
                Some(m) => m.optimized(),
                None => old(self).layout().optimized(),
            },
            final(self).titles() == old(self).titles().remove(panel_id),
            match r {
                Some(t) => old(self).titles().dom().contains(panel_id) && t@ == old(self).titles()[panel_id],
                None => !old(self).titles().dom().contains(panel_id),
            },
    {
        let _ = self.root_node.remove_panel(panel_id);
        let ghost shrunk = self.root_node@;
        self.root_node.optimize();
        proof {
            crate::layout_tree::law_optimize_keeps_wf(shrunk);
        }
        let ghost before = self.entries();
        proof {
            lemma_title_map_keys(before, panel_id);
        }
        match self.position(panel_id) {
            Some(i) => {
                let ghost removed = self.panels@[i as int];
                let (_, title) = self.panels.remove(i);
                proof {
                    assert(removed.1@ == before[i as int].1);
                    assert(ids_of(before)[i as int] == panel_id);
                    assert(self.entries() =~= before.remove(i as int));
                    lemma_title_map_remove(before, i as int);
                    assert(ids_of(self.entries()) =~= ids_of(before).remove(i as int));
                    assert(before[i as int].0 == panel_id);
                    assert(title_map(before)[panel_id] == before[i as int].1) by {
                        lemma_title_map_update(before, i as int, before[i as int].1);
                        assert(before.update(i as int, (panel_id, before[i as int].1)) == before);
                    }
                }
                Some(title)
            },
            None => {
                assert(title_map(before).remove(panel_id) =~= title_map(before));
                None
            },
        }
    }

    /// Docks a registered panel: as a tab of a container (an unknown
    /// container is an error); docking into a new split or beside a node
    /// leaves the layout as it is.
    pub fn dock_panel(&mut self, panel_id: PanelId, target: DockTarget) -> (r: Result<(), LayoutError>)
        requires
            old(self).wf(),
        ensures
            final(self).wf(),
            final(self).titles() == old(self).titles(),
            match target {
                DockTarget::Tab { tab_id, index } => match r {
                    Ok(()) => old(self).layout().find_tab(tab_id) is Some && final(self).layout()
                        == old(self).layout().add_panel(tab_id, panel_id, index),
                    Err(e) => old(self).layout().find_tab(tab_id) is None && e
                        == LayoutError::TabContainerNotFound(tab_id) && final(self).layout() == old(
                        self,
                    ).layout(),
                },
                _ => r is Ok && final(self).layout() == old(self).layout(),
            },
    {
        match target {
            DockTarget::Tab { tab_id, index } => self.root_node.add_panel_to_tabs(tab_id, panel_id, index),
            DockTarget::Split { .. } => Ok(()),
            DockTarget::Position { .. } => Ok(()),
        }
    }

    fn first_shown(node: &LayoutNode) -> (r: Option<PanelId>)
        ensures
            r == first_shown_panel(node@),
        decreases node,
    {
        match node {
            LayoutNode::Split { left, right, .. } => match Self::first_shown(left) {
                Some(p) => Some(p),
                None => Self::first_shown(right),
            },
            LayoutNode::Tabs { active_tab, panels, .. } => if *active_tab < panels.len() {
                Some(panels[*active_tab])
            } else {
                None
            },
            LayoutNode::Empty => None,
        }
    }

    /// The panel that receives input.
    pub fn get_active_panel(&self) -> (r: Option<PanelId>)
        ensures
            r == active_panel_of(self.layout()),
            self.layout() matches LayoutModel::Tabs { active_tab, panels, .. } ==> r == (
            if active_tab < panels.len() {
                Some(panels[active_tab as int])
            } else {
                None
            }),
    {
        proof {
            law_active_panel(self.layout());
        }
        match &self.root_node {
            LayoutNode::Tabs { active_tab, panels, .. } => if *active_tab < panels.len() {
                Some(panels[*active_tab])
            } else {
                None
            },
            LayoutNode::Split { left, .. } => Self::first_shown(left),
            LayoutNode::Empty => None,
        }
    }

    /// The identifiers of the registered panels, each once.
    pub fn get_all_panels(&self) -> (r: Vec<PanelId>)
        ensures
            r@ == ids_of(self.entries()),
    {
        let mut out: Vec<PanelId> = Vec::new();
        let mut i: usize = 0;
        while i < self.panels.len()
            invariant
                i <= self.panels@.len(),
                out@ == ids_of(self.entries()).subrange(0, i as int),
            decreases self.panels@.len() - i,
        {
            out.push(self.panels[i].0);
            i = i + 1;
            assert(out@ =~= ids_of(self.entries()).subrange(0, i as int));
        }
        assert(ids_of(self.entries()).subrange(0, i as int) =~= ids_of(self.entries()));
        out
    }

    /// The titles of the given panels that are registered, in order: the
    /// titles a tab bar for them shows.
    pub fn tab_titles(&self, panel_ids: &Vec<PanelId>) -> (r: Vec<String>)
        requires
            self.wf(),
        ensures
            r@.map_values(|s: String| s@) == registered_titles(panel_ids@, self.titles()),
    {
        let ghost ts = self.titles();
        let mut out: Vec<String> = Vec::new();
        let mut i: usize = 0;
        while i < panel_ids.len()
            invariant
                i <= panel_ids@.len(),
                ts == self.titles(),
                self.wf(),
                out@.map_values(|s: String| s@) == registered_titles(panel_ids@.subrange(0, i as int), ts),
            decreases panel_ids@.len() - i,
        {
            let p = panel_ids[i];
            let ghost prefix = panel_ids@.subrange(0, i as int);
            assert(panel_ids@.subrange(0, i + 1).drop_last() == prefix);
            assert(panel_ids@.subrange(0, i + 1).last() == p);
            proof {
                lemma_title_map_keys(self.entries(), p);
            }
            match self.position(p) {
                Some(k) => {
                    let ghost before = out@.map_values(|s: String| s@);
                    out.push(self.panels[k].1.clone());
                    proof {
                        assert(ids_of(self.entries())[k as int] == p);
                        assert(ts[p] == self.entries()[k as int].1) by {
                            lemma_title_map_update(self.entries(), k as int, self.entries()[k as int].1);
                            assert(self.entries().update(k as int, (p, self.entries()[k as int].1))
                                == self.entries());
                        }
                        assert(out@.map_values(|s: String| s@) =~= before.push(ts[p]));
                    }
                },
                None => {},
            }
            i = i + 1;
        }
        assert(panel_ids@.subrange(0, i as int) == panel_ids@);
        out
    }

    /// Replaces the layout by a loaded one; the registered panels stay.
    pub fn load_layout(&mut self, root_node: LayoutNode)
        requires
            old(self).wf(),
            root_node@.wf(),
        ensures
            final(self).wf(),
            final(self).layout() == root_node@,
            final(self).entries() == old(self).entries(),
    {
        self.root_node = root_node;
    }

    /// The layout tree.
    pub fn root_node(&self) -> (r: &LayoutNode)
        ensures
            r@ == self.layout(),
    {
        &self.root_node
    }
}

impl Default for DockingManager {
    /// Same as `DockingManager::new`.
    fn default() -> (r: Self)
        ensures
            r.wf(),
            r.layout() == LayoutModel::Empty,
            r.entries() == Seq::<(PanelId, Seq<char>)>::empty(),
    {
        DockingManager::new()
    }
}

} // verus!
