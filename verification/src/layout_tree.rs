//! The docking layout tree: splits holding two subtrees, tab containers
//! holding panels, and empty space.
//!
//! A split's ratio is an `f32`; the tree carries it as its bit pattern
//! (`f32::to_bits`), and clamping is done on that pattern exactly as
//! `f32::clamp` orders floats.

use vstd::prelude::*;
use crate::layout::{PanelId, SplitId, TabId, SplitDirection};

verus! {

/// Bit pattern of `0.1f32`, the smallest ratio a split keeps.
pub const RATIO_MIN_BITS: u32 = 0x3dcc_cccd;

/// Bit pattern of `0.9f32`, the largest ratio a split keeps.
pub const RATIO_MAX_BITS: u32 = 0x3f66_6666;

/// Whether the `f32` with bit pattern `b` is a NaN.
pub open spec fn f32_is_nan(b: u32) -> bool {
    (b & 0x7f80_0000u32) == 0x7f80_0000u32 && (b & 0x007f_ffffu32) != 0u32
}

/// An integer that orders non-NaN `f32` bit patterns as the floats are
/// ordered (both zeros map to 0).
pub open spec fn f32_order_key(b: u32) -> int {
    if (b & 0x8000_0000u32) == 0u32 {
        b as int
    } else {
        -((b & 0x7fff_ffffu32) as int)
    }
}

/// `f32::clamp(x, 0.1, 0.9)` on bit patterns: a NaN stays as it is.
pub open spec fn clamp_ratio(b: u32) -> u32 {
    if f32_is_nan(b) {
        b
    } else if f32_order_key(b) < f32_order_key(RATIO_MIN_BITS) {
        RATIO_MIN_BITS
    } else if f32_order_key(b) > f32_order_key(RATIO_MAX_BITS) {
        RATIO_MAX_BITS
    } else {
        b
    }
}

/// Clamps a split ratio, given as `f32` bits, to `[0.1, 0.9]`.
pub fn clamp_ratio_bits(b: u32) -> (r: u32)
    ensures
        r == clamp_ratio(b),
{
    if (b & 0x7f80_0000u32) == 0x7f80_0000u32 && (b & 0x007f_ffffu32) != 0u32 {
        return b;
    }
    assert(0x3dcc_cccdu32 & 0x8000_0000u32 == 0u32) by (bit_vector);
    assert(0x3f66_6666u32 & 0x8000_0000u32 == 0u32) by (bit_vector);
    let key: i64 = if (b & 0x8000_0000u32) == 0u32 {
        b as i64
    } else {
        -((b & 0x7fff_ffffu32) as i64)
    };
    if key < RATIO_MIN_BITS as i64 {
        RATIO_MIN_BITS
    } else if key > RATIO_MAX_BITS as i64 {
        RATIO_MAX_BITS
    } else {
        b
    }
}

/// The mathematical shape of a layout tree.
#[allow(inconsistent_fields)]
pub enum LayoutModel {
    Split {
        id: SplitId,
        direction: SplitDirection,
        ratio_bits: u32,
        left: Box<LayoutModel>,
        right: Box<LayoutModel>,
    },
    Tabs { id: TabId, active_tab: nat, panels: Seq<PanelId> },
    Empty,
}

/// Where an insertion at `index` (or at the end) lands in a list of `len`.
pub open spec fn insert_position(index: Option<usize>, len: nat) -> nat {
    match index {
        Some(i) => if i < len {
            i as nat
        } else {
            len
        },
        None => len,
    }
}

/// The active tab after the tab at `index` is removed, leaving `new_len`.
pub open spec fn active_after_removal(active: nat, index: nat, new_len: nat) -> nat {
    if index < active {
        (active - 1) as nat
    } else if index == active && active >= new_len && new_len > 0 {
        (new_len - 1) as nat
    } else {
        active
    }
}

/// `i` is the first position of `x` in `s`.
pub open spec fn is_first_index(s: Seq<PanelId>, x: PanelId, i: int) -> bool {
    &&& 0 <= i < s.len()
    &&& s[i] == x
    &&& forall|j: int| 0 <= j < i ==> s[j] != x
}

/// The first position of `x` in `s` (meaningful when `s` contains `x`).
pub open spec fn first_index(s: Seq<PanelId>, x: PanelId) -> int {
    choose|i: int| is_first_index(s, x, i)
}

/// What a removal that found nothing reports.
#[derive(Debug, Clone, Copy, PartialEq, Eq, Structural)]
pub enum LayoutError {
    /// No tab container has this identifier.
    TabContainerNotFound(TabId),
    /// The search for a panel ended in a tab container without it.
    PanelNotInTabContainer,
    /// The search for a panel ended in empty space.
    PanelNotInEmptyNode,
    /// A tab index at or past the number of tabs (index, number of tabs).
    TabIndexOutOfBounds(usize, usize),
    /// No split has this identifier.
    SplitNotFound(SplitId),
}

impl LayoutModel {
    /// Every tab container's active index is at most its number of panels.
    pub open spec fn wf(self) -> bool
        decreases self,
    {
        match self {
            LayoutModel::Split { left, right, .. } => left.wf() && right.wf(),
            LayoutModel::Tabs { active_tab, panels, .. } => active_tab <= panels.len(),
            LayoutModel::Empty => true,
        }
    }

    /// The panels of the tree, in order, left subtrees first.
    pub open spec fn panels(self) -> Seq<PanelId>
        decreases self,
    {
        match self {
            LayoutModel::Split { left, right, .. } => left.panels() + right.panels(),
            LayoutModel::Tabs { panels, .. } => panels,
            LayoutModel::Empty => Seq::empty(),
        }
    }

    /// The first tab container (left subtrees first) with identifier `tab_id`.
    pub open spec fn find_tab(self, tab_id: TabId) -> Option<LayoutModel>
        decreases self,
    {
        match self {
            LayoutModel::Split { left, right, .. } => match left.find_tab(tab_id) {
                Some(n) => Some(n),
                None => right.find_tab(tab_id),
            },
            LayoutModel::Tabs { id, .. } => if id == tab_id {
                Some(self)
            } else {
                None
            },
            LayoutModel::Empty => None,
        }
    }

    /// The identifier of the first tab container holding `panel_id`.
    pub open spec fn panel_container(self, panel_id: PanelId) -> Option<TabId>
        decreases self,
    {
        match self {
            LayoutModel::Split { left, right, .. } => match left.panel_container(panel_id) {
                Some(t) => Some(t),
                None => right.panel_container(panel_id),
            },
            LayoutModel::Tabs { id, panels, .. } => if panels.contains(panel_id) {
                Some(id)
            } else {
                None
            },
            LayoutModel::Empty => None,
        }
    }

    /// The tree with `panel_id` inserted into the first container `tab_id`.
    pub open spec fn add_panel(self, tab_id: TabId, panel_id: PanelId, index: Option<usize>) -> LayoutModel
        decreases self,
    {
        match self {
            LayoutModel::Split { id, direction, ratio_bits, left, right } => if left.find_tab(
                tab_id,
            ) is Some {
                LayoutModel::Split {
                    id,
                    direction,
                    ratio_bits,
                    left: Box::new(left.add_panel(tab_id, panel_id, index)),
                    right,
                }
            } else {
                LayoutModel::Split {
                    id,
                    direction,
                    ratio_bits,
                    left,
                    right: Box::new(right.add_panel(tab_id, panel_id, index)),
                }
            },
            LayoutModel::Tabs { id, active_tab, panels } => if id == tab_id {
                let at = insert_position(index, panels.len());
                LayoutModel::Tabs {
                    id,
                    active_tab: if at <= active_tab {
                        active_tab + 1
                    } else {
                        active_tab
                    },
                    panels: panels.insert(at as int, panel_id),
                }
            } else {
                self
            },
            LayoutModel::Empty => self,
        }
    }

    /// The tree with the first occurrence of `panel_id` (left subtrees
    /// first) taken out of its tab container, or `None` if it is nowhere.
    pub open spec fn remove_panel(self, panel_id: PanelId) -> Option<LayoutModel>
        decreases self,
    {
        match self {
            LayoutModel::Split { id, direction, ratio_bits, left, right } => match left.remove_panel(
                panel_id,
            ) {
                Some(l) => Some(
                    LayoutModel::Split { id, direction, ratio_bits, left: Box::new(l), right },
                ),
                None => match right.remove_panel(panel_id) {
                    Some(r) => Some(
                        LayoutModel::Split { id, direction, ratio_bits, left, right: Box::new(r) },
                    ),
                    None => None,
                },
            },
            LayoutModel::Tabs { id, active_tab, panels } => if panels.contains(panel_id) {
                let at = first_index(panels, panel_id);
                let rest = panels.remove(at);
                Some(
                    LayoutModel::Tabs {
                        id,
                        active_tab: active_after_removal(active_tab, at as nat, rest.len()),
                        panels: rest,
                    },
                )
            } else {
                None
            },
            LayoutModel::Empty => None,
        }
    }

    /// The error a failed removal reports: it names the kind of the last
    /// node searched, the rightmost leaf.
    pub open spec fn removal_error(self) -> LayoutError
        decreases self,
    {
        match self {
            LayoutModel::Split { right, .. } => right.removal_error(),
            LayoutModel::Tabs { .. } => LayoutError::PanelNotInTabContainer,
            LayoutModel::Empty => LayoutError::PanelNotInEmptyNode,
        }
    }

    /// The tree without empty tab containers and without splits that have
    /// an empty side (the other side takes the split's place).
    pub open spec fn optimized(self) -> LayoutModel
        decreases self,
    {
        match self {
            LayoutModel::Split { id, direction, ratio_bits, left, right } => {
                let l = left.optimized();
                let r = right.optimized();
                if l is Empty {
                    r
                } else if r is Empty {
                    l
                } else {
                    LayoutModel::Split { id, direction, ratio_bits, left: Box::new(l), right: Box::new(r) }
                }
            },
            LayoutModel::Tabs { panels, .. } => if panels.len() == 0 {
                LayoutModel::Empty
            } else {
                self
            },
            LayoutModel::Empty => LayoutModel::Empty,
        }
    }

    /// The tree with the ratio of the first split `split_id` (the node
    /// itself, then its left subtree, then its right) set to `ratio_bits`
    /// clamped, or `None` if there is no such split.
    pub open spec fn set_ratio(self, split_id: SplitId, ratio_bits: u32) -> Option<LayoutModel>
        decreases self,
    {
        match self {
            LayoutModel::Split { id, direction, ratio_bits: old_bits, left, right } => if id
                == split_id {
                Some(
                    LayoutModel::Split {
                        id,
                        direction,
                        ratio_bits: clamp_ratio(ratio_bits),
                        left,
                        right,
                    },
                )
            } else {
                match left.set_ratio(split_id, ratio_bits) {
                    Some(l) => Some(
                        LayoutModel::Split {
                            id,
                            direction,
                            ratio_bits: old_bits,
                            left: Box::new(l),
                            right,
                        },
                    ),
                    None => match right.set_ratio(split_id, ratio_bits) {
                        Some(r) => Some(
                            LayoutModel::Split {
                                id,
                                direction,
                                ratio_bits: old_bits,
                                left,
                                right: Box::new(r),
                            },
                        ),
                        None => None,
                    },
                }
            },
            _ => None,
        }
    }

    /// Whether some split of the tree, at any depth, has identifier
    /// `split_id`.
    pub open spec fn has_split(self, split_id: SplitId) -> bool
        decreases self,
    {
        match self {
            LayoutModel::Split { id, left, right, .. } => id == split_id || left.has_split(split_id)
                || right.has_split(split_id),
            _ => false,
        }
    }

    /// The ratio of the split `split_id`, the first one met when each split
    /// is read before its left subtree and that before its right; `None`
    /// if there is none.
    pub open spec fn split_ratio(self, split_id: SplitId) -> Option<u32>
        decreases self,
    {
        match self {
            LayoutModel::Split { id, ratio_bits, left, right, .. } => if id == split_id {
                Some(ratio_bits)
            } else {
                match left.split_ratio(split_id) {
                    Some(b) => Some(b),
                    None => right.split_ratio(split_id),
                }
            },
            _ => None,
        }
    }

    /// The tree with the first container `tab_id` replaced by `node`.
    pub open spec fn replace_tab(self, tab_id: TabId, node: LayoutModel) -> LayoutModel
        decreases self,
    {
        match self {
            LayoutModel::Split { id, direction, ratio_bits, left, right } => if left.find_tab(
                tab_id,
            ) is Some {
                LayoutModel::Split {
                    id,
                    direction,
                    ratio_bits,
                    left: Box::new(left.replace_tab(tab_id, node)),
                    right,
                }
            } else {
                LayoutModel::Split {
                    id,
                    direction,
                    ratio_bits,
                    left,
                    right: Box::new(right.replace_tab(tab_id, node)),
                }
            },
            LayoutModel::Tabs { id, .. } => if id == tab_id {
                node
            } else {
                self
            },
            LayoutModel::Empty => self,
        }
    }

    /// The tree with the active tab of the first container `tab_id` set to `index`.
    pub open spec fn set_active(self, tab_id: TabId, index: nat) -> LayoutModel
        decreases self,
    {
        match self {
            LayoutModel::Split { id, direction, ratio_bits, left, right } => if left.find_tab(
                tab_id,
            ) is Some {
                LayoutModel::Split {
                    id,
                    direction,
                    ratio_bits,
                    left: Box::new(left.set_active(tab_id, index)),
                    right,
                }
            } else {
                LayoutModel::Split {
                    id,
                    direction,
                    ratio_bits,
                    left,
                    right: Box::new(right.set_active(tab_id, index)),
                }
            },
            LayoutModel::Tabs { id, active_tab, panels } => if id == tab_id {
                LayoutModel::Tabs { id, active_tab: index, panels }
            } else {
                self
            },
            LayoutModel::Empty => self,
        }
    }
}

/// The first position of `x` in `s` is the one `is_first_index` names.
proof fn lemma_first_index(s: Seq<PanelId>, x: PanelId, i: int)
    requires
        is_first_index(s, x, i),
    ensures
        first_index(s, x) == i,
{
    let k = first_index(s, x);
    assert(is_first_index(s, x, k));
    if k < i {
        assert(s[k] != x);
    } else if k > i {
        assert(s[i] != x);
    }
}

/// A container found by identifier is a tab container with that identifier.
proof fn lemma_find_tab_is_tabs(m: LayoutModel, tab_id: TabId)
    ensures
        m.find_tab(tab_id) is None || (m.find_tab(tab_id) matches Some(
            LayoutModel::Tabs { id, .. },
        ) && id == tab_id),
    decreases m,
{
    match m {
        LayoutModel::Split { left, right, .. } => {
            lemma_find_tab_is_tabs(*left, tab_id);
            lemma_find_tab_is_tabs(*right, tab_id);
        },
        _ => {},
    }
}

/// Setting the active tab of a found container to one of its tabs keeps
/// the tree well formed.
proof fn lemma_set_active_wf(m: LayoutModel, tab_id: TabId, index: nat)
    requires
        m.wf(),
        m.find_tab(tab_id) matches Some(LayoutModel::Tabs { panels, .. }) && index < panels.len(),
    ensures
        m.set_active(tab_id, index).wf(),
    decreases m,
{
    match m {
        LayoutModel::Split { left, right, .. } => {
            if left.find_tab(tab_id) is Some {
                lemma_set_active_wf(*left, tab_id, index);
            } else {
                lemma_set_active_wf(*right, tab_id, index);
            }
        },
        _ => {},
    }
}

/// Adding to a container that does not exist leaves the tree as it was.
proof fn lemma_add_missing_tab(m: LayoutModel, tab_id: TabId, panel_id: PanelId, index: Option<usize>)
    requires
        m.find_tab(tab_id) is None,
    ensures
        m.add_panel(tab_id, panel_id, index) == m,
    decreases m,
{
    match m {
        LayoutModel::Split { left, right, .. } => {
            lemma_add_missing_tab(*left, tab_id, panel_id, index);
            lemma_add_missing_tab(*right, tab_id, panel_id, index);
        },
        _ => {},
    }
}

/// The first position of `x` in `v`, if any.
fn position_of(v: &Vec<PanelId>, x: PanelId) -> (r: Option<usize>)
    ensures
        match r {
            Some(i) => is_first_index(v@, x, i as int),
            None => !v@.contains(x),
        },
{
    let mut i: usize = 0;
    while i < v.len()
        invariant
            i <= v.len(),
            forall|j: int| 0 <= j < i ==> v@[j] != x,
        decreases v.len() - i,
    {
        if v[i] == x {
            return Some(i);
        }
        i = i + 1;
    }
    None
}

/// A tree is compact when no tab container is empty and no split has an
/// empty side.
pub open spec fn is_compact(m: LayoutModel) -> bool
    decreases m,
{
    match m {
        LayoutModel::Split { left, right, .. } => !((*left) is Empty) && !((*right) is Empty) && is_compact(
            *left,
        ) && is_compact(*right),
        LayoutModel::Tabs { panels, .. } => panels.len() > 0,
        LayoutModel::Empty => true,
    }
}

/// A panel can be removed exactly when the tree shows it.
pub proof fn law_remove_finds_shown_panels(m: LayoutModel, panel_id: PanelId)
    ensures
        m.remove_panel(panel_id) is Some <==> m.panels().contains(panel_id),
    decreases m,
{
    match m {
        LayoutModel::Split { left, right, .. } => {
            law_remove_finds_shown_panels(*left, panel_id);
            law_remove_finds_shown_panels(*right, panel_id);
            lemma_concat_contains(left.panels(), right.panels(), panel_id);
        },
        _ => {},
    }
}

/// A panel has a container exactly when the tree shows it.
pub proof fn law_container_of_shown_panels(m: LayoutModel, panel_id: PanelId)
    ensures
        m.panel_container(panel_id) is Some <==> m.panels().contains(panel_id),
    decreases m,
{
    match m {
        LayoutModel::Split { left, right, .. } => {
            law_container_of_shown_panels(*left, panel_id);
            law_container_of_shown_panels(*right, panel_id);
            lemma_concat_contains(left.panels(), right.panels(), panel_id);
        },
        _ => {},
    }
}

proof fn lemma_concat_contains(a: Seq<PanelId>, b: Seq<PanelId>, x: PanelId)
    ensures
        (a + b).contains(x) <==> (a.contains(x) || b.contains(x)),
{
    if a.contains(x) {
        let i = choose|i: int| 0 <= i < a.len() && a[i] == x;
        assert((a + b)[i] == x);
    }
    if b.contains(x) {
        let i = choose|i: int| 0 <= i < b.len() && b[i] == x;
        assert((a + b)[a.len() + i] == x);
    }
    if (a + b).contains(x) {
        let i = choose|i: int| 0 <= i < (a + b).len() && (a + b)[i] == x;
        if i < a.len() {
            assert(a[i] == x);
        } else {
            assert(b[i - a.len()] == x);
        }
    }
}

/// Docking a panel into a container adds exactly that panel to the tree.
pub proof fn law_add_panel_adds_one(m: LayoutModel, tab_id: TabId, panel_id: PanelId, index: Option<usize>)
    requires
        m.find_tab(tab_id) is Some,
    ensures
        m.add_panel(tab_id, panel_id, index).panels().to_multiset() == m.panels().to_multiset().insert(
            panel_id,
        ),
    decreases m,
{
    broadcast use vstd::seq_lib::lemma_multiset_commutative, vstd::seq_lib::to_multiset_insert;
    broadcast use vstd::multiset::group_multiset_axioms;

    match m {
        LayoutModel::Split { left, right, .. } => {
            if left.find_tab(tab_id) is Some {
                law_add_panel_adds_one(*left, tab_id, panel_id, index);
            } else {
                law_add_panel_adds_one(*right, tab_id, panel_id, index);
            }
        },
        _ => {},
    }
}

/// Removing a panel takes exactly one copy of it out of the tree.
pub proof fn law_remove_panel_removes_one(m: LayoutModel, panel_id: PanelId)
    requires
        m.panels().contains(panel_id),
    ensures
        m.remove_panel(panel_id) matches Some(n) && n.panels().to_multiset() == m.panels().to_multiset().remove(
            panel_id,
        ),
    decreases m,
{
    broadcast use vstd::seq_lib::lemma_multiset_commutative, vstd::seq_lib::to_multiset_remove;
    broadcast use vstd::multiset::group_multiset_axioms;

    law_remove_finds_shown_panels(m, panel_id);
    match m {
        LayoutModel::Split { left, right, .. } => {
            law_remove_finds_shown_panels(*left, panel_id);
            lemma_concat_contains(left.panels(), right.panels(), panel_id);
            vstd::seq_lib::to_multiset_contains(left.panels(), panel_id);
            let lm = left.panels().to_multiset();
            let rm = right.panels().to_multiset();
            if left.panels().contains(panel_id) {
                law_remove_panel_removes_one(*left, panel_id);
                assert(lm.remove(panel_id).add(rm) =~= lm.add(rm).remove(panel_id));
            } else {
                law_remove_panel_removes_one(*right, panel_id);
                assert(lm.add(rm.remove(panel_id)) =~= lm.add(rm).remove(panel_id));
            }
        },
        LayoutModel::Tabs { panels, .. } => {
            let at = first_index(panels, panel_id);
            let w = choose|i: int| 0 <= i < panels.len() && panels[i] == panel_id;
            lemma_first_exists(panels, panel_id, w);
            assert(panels[at] == panel_id);
        },
        LayoutModel::Empty => {},
    }
}

proof fn lemma_first_exists(s: Seq<PanelId>, x: PanelId, w: int)
    requires
        0 <= w < s.len(),
        s[w] == x,
    ensures
        is_first_index(s, x, first_index(s, x)),
    decreases w,
{
    if exists|j: int| 0 <= j < w && s[j] == x {
        let j = choose|j: int| 0 <= j < w && s[j] == x;
        lemma_first_exists(s, x, j);
    } else {
        assert(is_first_index(s, x, w));
    }
}

/// Removing a panel that was just docked into a container, and shown
/// nowhere before, gives back the tree as it was, active tab included.
pub proof fn law_remove_undoes_add(m: LayoutModel, tab_id: TabId, panel_id: PanelId, index: Option<usize>)
    requires
        m.find_tab(tab_id) is Some,
        !m.panels().contains(panel_id),
    ensures
        m.add_panel(tab_id, panel_id, index).remove_panel(panel_id) == Some(m),
    decreases m,
{
    match m {
        LayoutModel::Split { left, right, .. } => {
            lemma_concat_contains(left.panels(), right.panels(), panel_id);
            if left.find_tab(tab_id) is Some {
                law_remove_undoes_add(*left, tab_id, panel_id, index);
            } else {
                law_remove_finds_shown_panels(*left, panel_id);
                law_remove_undoes_add(*right, tab_id, panel_id, index);
            }
        },
        LayoutModel::Tabs { id, active_tab, panels } => {
            let at = insert_position(index, panels.len());
            let grown = panels.insert(at as int, panel_id);
            assert(is_first_index(grown, panel_id, at as int)) by {
                assert forall|j: int| 0 <= j < at implies grown[j] != panel_id by {
                    assert(grown[j] == panels[j]);
                }
            }
            lemma_first_index(grown, panel_id, at as int);
            assert(grown.contains(panel_id)) by {
                assert(grown[at as int] == panel_id);
            }
            assert(grown.remove(at as int) == panels);
        },
        LayoutModel::Empty => {},
    }
}

/// A panel docked into a container, and shown nowhere before, is then
/// found in that container.
pub proof fn law_docked_panel_is_found(m: LayoutModel, tab_id: TabId, panel_id: PanelId, index: Option<usize>)
    requires
        m.find_tab(tab_id) is Some,
        !m.panels().contains(panel_id),
    ensures
        m.add_panel(tab_id, panel_id, index).panel_container(panel_id) == Some(tab_id),
    decreases m,
{
    lemma_find_tab_is_tabs(m, tab_id);
    match m {
        LayoutModel::Split { left, right, .. } => {
            lemma_concat_contains(left.panels(), right.panels(), panel_id);
            if left.find_tab(tab_id) is Some {
                law_docked_panel_is_found(*left, tab_id, panel_id, index);
            } else {
                law_container_of_shown_panels(*left, panel_id);
                law_docked_panel_is_found(*right, tab_id, panel_id, index);
            }
        },
        LayoutModel::Tabs { panels, .. } => {
            let at = insert_position(index, panels.len());
            assert(panels.insert(at as int, panel_id)[at as int] == panel_id);
        },
        LayoutModel::Empty => {},
    }
}

/// Optimizing keeps every panel, in order.
pub proof fn law_optimize_keeps_panels(m: LayoutModel)
    ensures
        m.optimized().panels() == m.panels(),
    decreases m,
{
    match m {
        LayoutModel::Split { left, right, .. } => {
            law_optimize_keeps_panels(*left);
            law_optimize_keeps_panels(*right);
            assert(Seq::<PanelId>::empty() + right.panels() == right.panels());
            assert(left.panels() + Seq::<PanelId>::empty() == left.panels());
        },
        _ => {},
    }
}

/// Optimizing keeps a well-formed tree well formed.
pub proof fn law_optimize_keeps_wf(m: LayoutModel)
    requires
        m.wf(),
    ensures
        m.optimized().wf(),
    decreases m,
{
    match m {
        LayoutModel::Split { left, right, .. } => {
            law_optimize_keeps_wf(*left);
            law_optimize_keeps_wf(*right);
        },
        _ => {},
    }
}

/// An optimized tree is compact.
pub proof fn law_optimized_is_compact(m: LayoutModel)
    ensures
        is_compact(m.optimized()),
    decreases m,
{
    match m {
        LayoutModel::Split { left, right, .. } => {
            law_optimized_is_compact(*left);
            law_optimized_is_compact(*right);
        },
        _ => {},
    }
}

proof fn lemma_compact_is_fixed(m: LayoutModel)
    requires
        is_compact(m),
    ensures
        m.optimized() == m,
    decreases m,
{
    match m {
        LayoutModel::Split { left, right, .. } => {
            lemma_compact_is_fixed(*left);
            lemma_compact_is_fixed(*right);
        },
        _ => {},
    }
}

/// Optimizing twice is optimizing once.
pub proof fn law_optimize_idempotent(m: LayoutModel)
    ensures
        m.optimized().optimized() == m.optimized(),
{
    law_optimized_is_compact(m);
    lemma_compact_is_fixed(m.optimized());
}

/// A tree without panels optimizes to empty space.
pub proof fn law_optimize_clears_empty_tree(m: LayoutModel)
    requires
        m.panels().len() == 0,
    ensures
        m.optimized() == LayoutModel::Empty,
    decreases m,
{
    match m {
        LayoutModel::Split { left, right, .. } => {
            law_optimize_clears_empty_tree(*left);
            law_optimize_clears_empty_tree(*right);
        },
        _ => {},
    }
}

/// Choosing the active tab keeps the panels.
pub proof fn law_set_active_keeps_panels(m: LayoutModel, tab_id: TabId, index: nat)
    ensures
        m.set_active(tab_id, index).panels() == m.panels(),
    decreases m,
{
    match m {
        LayoutModel::Split { left, right, .. } => {
            law_set_active_keeps_panels(*left, tab_id, index);
            law_set_active_keeps_panels(*right, tab_id, index);
        },
        _ => {},
    }
}

/// Changing a split ratio keeps the panels.
pub proof fn law_set_ratio_keeps_panels(m: LayoutModel, split_id: SplitId, ratio_bits: u32)
    ensures
        m.set_ratio(split_id, ratio_bits) matches Some(n) ==> n.panels() == m.panels(),
    decreases m,
{
    match m {
        LayoutModel::Split { left, right, .. } => {
            law_set_ratio_keeps_panels(*left, split_id, ratio_bits);
            law_set_ratio_keeps_panels(*right, split_id, ratio_bits);
        },
        _ => {},
    }
}

/// Every split of the tree can be resized, wherever it stands (right
/// subtrees included): setting the ratio of `split_id` succeeds exactly
/// when some split has that identifier, and then that split reads the
/// clamped ratio, the tree keeps its splits and its panels.
pub proof fn law_set_ratio_reaches_every_split(m: LayoutModel, split_id: SplitId, ratio_bits: u32)
    ensures
        (m.set_ratio(split_id, ratio_bits) is Some) == m.has_split(split_id),
        (m.split_ratio(split_id) is Some) == m.has_split(split_id),
        m.set_ratio(split_id, ratio_bits) matches Some(n) ==> {
            &&& n.split_ratio(split_id) == Some(clamp_ratio(ratio_bits))
            &&& forall|o: SplitId| #[trigger] n.has_split(o) == m.has_split(o)
            &&& n.panels() == m.panels()
        },
    decreases m,
{
    law_set_ratio_keeps_panels(m, split_id, ratio_bits);
    match m {
        LayoutModel::Split { id, left, right, .. } => {
            law_set_ratio_reaches_every_split(*left, split_id, ratio_bits);
            law_set_ratio_reaches_every_split(*right, split_id, ratio_bits);
            if let Some(n) = m.set_ratio(split_id, ratio_bits) {
                if let LayoutModel::Split { left: nl, right: nr, .. } = n {
                    if id != split_id {
                        if left.has_split(split_id) {
                            assert(*nl == left.set_ratio(split_id, ratio_bits).unwrap());
                            assert(*nr == *right);
                        } else {
                            assert(*nl == *left);
                            assert(*nr == right.set_ratio(split_id, ratio_bits).unwrap());
                        }
                    }
                    assert forall|o: SplitId| #[trigger] n.has_split(o) == m.has_split(o) by {
                        assert(nl.has_split(o) == left.has_split(o));
                        assert(nr.has_split(o) == right.has_split(o));
                    }
                }
            }
        },
        _ => {},
    }
}

/// A clamped ratio that is a number lies in `[0.1, 0.9]`, and clamping it
/// again changes nothing.
pub proof fn law_clamped_ratio_in_range(b: u32)
    requires
        !f32_is_nan(b),
    ensures
        f32_order_key(RATIO_MIN_BITS) <= f32_order_key(clamp_ratio(b)) <= f32_order_key(RATIO_MAX_BITS),
        clamp_ratio(clamp_ratio(b)) == clamp_ratio(b),
{
    assert(0x3dcc_cccdu32 & 0x8000_0000u32 == 0u32) by (bit_vector);
    assert(0x3f66_6666u32 & 0x8000_0000u32 == 0u32) by (bit_vector);
    assert(!f32_is_nan(0x3dcc_cccdu32)) by (bit_vector);
    assert(!f32_is_nan(0x3f66_6666u32)) by (bit_vector);
}

/// A node of the docking layout.
#[derive(Debug)]
#[allow(inconsistent_fields)]
pub enum LayoutNode {
    /// Two subtrees side by side (`Horizontal`) or stacked (`Vertical`);
    /// `ratio_bits` is the `f32` share of the first, as bits.
    Split {
        id: SplitId,
        direction: SplitDirection,
        ratio_bits: u32,
        left: Box<LayoutNode>,
        right: Box<LayoutNode>,
    },
    /// Tabs showing panels, one of them active.
    Tabs { id: TabId, active_tab: usize, panels: Vec<PanelId> },
    /// Space that accepts drops.
    Empty,
}

impl LayoutNode {
    /// The shape of this tree.
    pub open spec fn model(self) -> LayoutModel
        decreases self,
    {
        match self {
            LayoutNode::Split { id, direction, ratio_bits, left, right } => LayoutModel::Split {
                id,
                direction,
                ratio_bits,
                left: Box::new(left.model()),
                right: Box::new(right.model()),
            },
            LayoutNode::Tabs { id, active_tab, panels } => LayoutModel::Tabs {
                id,
                active_tab: active_tab as nat,
                panels: panels@,
            },
            LayoutNode::Empty => LayoutModel::Empty,
        }
    }
}

impl View for LayoutNode {
    type V = LayoutModel;

    open spec fn view(&self) -> LayoutModel {
        self.model()
    }
}

impl LayoutNode {
    /// Empty space.
    pub fn empty() -> (r: Self)
        ensures
            r@ == LayoutModel::Empty,
    {
        LayoutNode::Empty
    }

    /// A new tab container (random identifier) showing one panel.
    pub fn single_tab(panel_id: PanelId) -> (r: Self)
        ensures
            r@ matches LayoutModel::Tabs { id, active_tab, panels } && active_tab == 0 && panels
                == seq![panel_id] && (id.0 >> 76u128) & 0xfu128 == 4u128 && (id.0 >> 62u128) & 3u128
                == 2u128,
    {
        LayoutNode::Tabs { id: TabId::new(), active_tab: 0, panels: vec![panel_id] }
    }

    /// A new tab container (random identifier) showing `panels`, the first active.
    pub fn tabs(panels: Vec<PanelId>) -> (r: Self)
        ensures
            r@ matches LayoutModel::Tabs { id, active_tab, panels: p } && active_tab == 0 && p
                == panels@ && (id.0 >> 76u128) & 0xfu128 == 4u128 && (id.0 >> 62u128) & 3u128 == 2u128,
    {
        LayoutNode::Tabs { id: TabId::new(), active_tab: 0, panels }
    }

    /// A new split (random identifier) of `left` and `right`, its ratio
    /// (`f32` bits) clamped to `[0.1, 0.9]`.
    pub fn split(direction: SplitDirection, ratio_bits: u32, left: LayoutNode, right: LayoutNode) -> (r: Self)
        ensures
            r@ matches LayoutModel::Split { id, direction: d, ratio_bits: b, left: l, right: rt }
                && d == direction && b == clamp_ratio(ratio_bits) && *l == left@ && *rt == right@
                && (id.0 >> 76u128) & 0xfu128 == 4u128 && (id.0 >> 62u128) & 3u128 == 2u128,
    {
        LayoutNode::Split {
            id: SplitId::new(),
            direction,
            ratio_bits: clamp_ratio_bits(ratio_bits),
            left: Box::new(left),
            right: Box::new(right),
        }
    }

    /// The first tab container (left subtrees first) with identifier `tab_id`.
    pub fn find_tab_container(&self, tab_id: TabId) -> (r: Option<&LayoutNode>)
        ensures
            match r {
                Some(n) => self@.find_tab(tab_id) == Some(n@),
                None => self@.find_tab(tab_id) is None,
            },
        decreases self,
    {
        match self {
            LayoutNode::Split { left, right, .. } => match left.find_tab_container(tab_id) {
                Some(n) => Some(n),
                None => right.find_tab_container(tab_id),
            },
            LayoutNode::Tabs { id, .. } => if *id == tab_id {
                Some(self)
            } else {
                None
            },
            LayoutNode::Empty => None,
        }
    }

    /// The first tab container with identifier `tab_id`, to change in place.
    pub fn find_tab_container_mut(&mut self, tab_id: TabId) -> (r: Option<&mut LayoutNode>)
        ensures
            match r {
                Some(n) => old(self)@.find_tab(tab_id) == Some(n@) && final(self)@ == old(
                    self,
                )@.replace_tab(tab_id, final(n)@),
                None => old(self)@.find_tab(tab_id) is None && final(self)@ == old(self)@,
            },
        decreases *old(self),
    {
        let in_left = match self {
            LayoutNode::Split { left, .. } => left.find_tab_container(tab_id).is_some(),
            _ => false,
        };
        match self {
            LayoutNode::Split { left, right, .. } => {
                if in_left {
                    left.find_tab_container_mut(tab_id)
                } else {
                    right.find_tab_container_mut(tab_id)
                }
            },
            LayoutNode::Tabs { id, .. } => {
                if *id == tab_id {
                    Some(self)
                } else {
                    None
                }
            },
            LayoutNode::Empty => None,
        }
    }

    /// The identifier of the first tab container holding `panel_id`.
    pub fn find_panel_container(&self, panel_id: PanelId) -> (r: Option<TabId>)
        ensures
            r == self@.panel_container(panel_id),
        decreases self,
    {
        match self {
            LayoutNode::Split { left, right, .. } => match left.find_panel_container(panel_id) {
                Some(t) => Some(t),
                None => right.find_panel_container(panel_id),
            },
            LayoutNode::Tabs { id, panels, .. } => match position_of(panels, panel_id) {
                Some(_) => Some(*id),
                None => None,
            },
            LayoutNode::Empty => None,
        }
    }

    fn with_panel_added(node: LayoutNode, tab_id: TabId, panel_id: PanelId, index: Option<usize>) -> (r: (LayoutNode, bool))
        requires
            node@.wf(),
        ensures
            r.1 == node@.find_tab(tab_id) is Some,
            r.0@ == node@.add_panel(tab_id, panel_id, index),
            r.0@.wf(),
        decreases node,
    {
        match node {
            LayoutNode::Split { id, direction, ratio_bits, left, right } => {
                let (l, found) = Self::with_panel_added(*left, tab_id, panel_id, index);
                if found {
                    (LayoutNode::Split { id, direction, ratio_bits, left: Box::new(l), right }, true)
                } else {
                    proof {
                        lemma_add_missing_tab(left@, tab_id, panel_id, index);
                    }
                    let (r, found_right) = Self::with_panel_added(*right, tab_id, panel_id, index);
                    (
                        LayoutNode::Split {
                            id,
                            direction,
                            ratio_bits,
                            left: Box::new(l),
                            right: Box::new(r),
                        },
                        found_right,
                    )
                }
            },
            LayoutNode::Tabs { id, active_tab, panels } => {
                if id == tab_id {
                    let mut panels = panels;
                    let len = panels.len();
                    let at: usize = match index {
                        Some(i) => if i < len {
                            i
                        } else {
                            len
                        },
                        None => len,
                    };
                    panels.insert(at, panel_id);
                    let new_len = panels.len();
                    assert(new_len == len + 1);
                    let active = if at <= active_tab {
                        active_tab + 1
                    } else {
                        active_tab
                    };
                    (LayoutNode::Tabs { id, active_tab: active, panels }, true)
                } else {
                    (LayoutNode::Tabs { id, active_tab, panels }, false)
                }
            },
            LayoutNode::Empty => (LayoutNode::Empty, false),
        }
    }

    /// Inserts `panel_id` into the first tab container `tab_id`, at `index`
    /// (clamped to the end; the end when `None`); the active tab moves with
    /// its panel when the insertion is at or before it.
    pub fn add_panel_to_tabs(&mut self, tab_id: TabId, panel_id: PanelId, index: Option<usize>) -> (r: Result<(), LayoutError>)
        requires
            old(self)@.wf(),
        ensures
            final(self)@.wf(),
            match r {
                Ok(()) => old(self)@.find_tab(tab_id) is Some && final(self)@ == old(self)@.add_panel(
                    tab_id,
                    panel_id,
                    index,
                ),
                Err(e) => old(self)@.find_tab(tab_id) is None && e == LayoutError::TabContainerNotFound(
                    tab_id,
                ) && final(self)@ == old(self)@,
            },
    {
        let mut node = LayoutNode::Empty;
        std::mem::swap(&mut node, self);
        let (updated, found) = Self::with_panel_added(node, tab_id, panel_id, index);
        *self = updated;
        if found {
            Ok(())
        } else {
            proof {
                lemma_add_missing_tab(old(self)@, tab_id, panel_id, index);
            }
            Err(LayoutError::TabContainerNotFound(tab_id))
        }
    }

    fn without_panel(node: LayoutNode, panel_id: PanelId) -> (r: (LayoutNode, bool))
        ensures
            match node@.remove_panel(panel_id) {
                Some(m) => r.1 && r.0@ == m,
                None => !r.1 && r.0@ == node@,
            },
            node@.wf() ==> r.0@.wf(),
        decreases node,
    {
        match node {
            LayoutNode::Split { id, direction, ratio_bits, left, right } => {
                let (l, found) = Self::without_panel(*left, panel_id);
                if found {
                    (LayoutNode::Split { id, direction, ratio_bits, left: Box::new(l), right }, true)
                } else {
                    let (r, found_right) = Self::without_panel(*right, panel_id);
                    (
                        LayoutNode::Split {
                            id,
                            direction,
                            ratio_bits,
                            left: Box::new(l),
                            right: Box::new(r),
                        },
                        found_right,
                    )
                }
            },
            LayoutNode::Tabs { id, active_tab, panels } => {
                let mut panels = panels;
                match position_of(&panels, panel_id) {
                    Some(at) => {
                        proof {
                            lemma_first_index(panels@, panel_id, at as int);
                        }
                        panels.remove(at);
                        let len = panels.len();
                        let active = if at < active_tab {
                            active_tab - 1
                        } else if at == active_tab && active_tab >= len && len > 0 {
                            len - 1
                        } else {
                            active_tab
                        };
                        (LayoutNode::Tabs { id, active_tab: active, panels }, true)
                    },
                    None => (LayoutNode::Tabs { id, active_tab, panels }, false),
                }
            },
            LayoutNode::Empty => (LayoutNode::Empty, false),
        }
    }

    /// Takes the first occurrence of `panel_id` out of its tab container,
    /// keeping the active tab on the same panel where it can.
    pub fn remove_panel(&mut self, panel_id: PanelId) -> (r: Result<(), LayoutError>)
        ensures
            old(self)@.wf() ==> final(self)@.wf(),
            match r {
                Ok(()) => old(self)@.remove_panel(panel_id) == Some(final(self)@),
                Err(e) => old(self)@.remove_panel(panel_id) is None && e == old(
                    self,
                )@.removal_error() && final(self)@ == old(self)@,
            },
    {
        let mut node = LayoutNode::Empty;
        std::mem::swap(&mut node, self);
        let (updated, found) = Self::without_panel(node, panel_id);
        *self = updated;
        if found {
            Ok(())
        } else {
            Err(Self::removal_error_of(self))
        }
    }

    fn removal_error_of(node: &LayoutNode) -> (r: LayoutError)
        ensures
            r == node@.removal_error(),
        decreases node,
    {
        match node {
            LayoutNode::Split { right, .. } => Self::removal_error_of(right),
            LayoutNode::Tabs { .. } => LayoutError::PanelNotInTabContainer,
            LayoutNode::Empty => LayoutError::PanelNotInEmptyNode,
        }
    }

    fn optimized_node(node: LayoutNode) -> (r: LayoutNode)
        ensures
            r@ == node@.optimized(),
        decreases node,
    {
        match node {
            LayoutNode::Split { id, direction, ratio_bits, left, right } => {
                let l = Self::optimized_node(*left);
                let r = Self::optimized_node(*right);
                if let LayoutNode::Empty = l {
                    r
                } else if let LayoutNode::Empty = r {
                    l
                } else {
                    LayoutNode::Split { id, direction, ratio_bits, left: Box::new(l), right: Box::new(r) }
                }
            },
            LayoutNode::Tabs { id, active_tab, panels } => {
                if panels.len() == 0 {
                    LayoutNode::Empty
                } else {
                    LayoutNode::Tabs { id, active_tab, panels }
                }
            },
            LayoutNode::Empty => LayoutNode::Empty,
        }
    }

    /// Drops empty tab containers, and replaces each split with an empty
    /// side by its other side.
    pub fn optimize(&mut self)
        ensures
            final(self)@ == old(self)@.optimized(),
    {
        let mut node = LayoutNode::Empty;
        std::mem::swap(&mut node, self);
        *self = Self::optimized_node(node);
    }

    fn with_ratio(node: LayoutNode, split_id: SplitId, ratio_bits: u32) -> (r: (LayoutNode, bool))
        ensures
            match node@.set_ratio(split_id, ratio_bits) {
                Some(m) => r.1 && r.0@ == m,
                None => !r.1 && r.0@ == node@,
            },
            node@.wf() ==> r.0@.wf(),
        decreases node,
    {
        match node {
            LayoutNode::Split { id, direction, ratio_bits: old_bits, left, right } => {
                if id == split_id {
                    (
                        LayoutNode::Split {
                            id,
                            direction,
                            ratio_bits: clamp_ratio_bits(ratio_bits),
                            left,
                            right,
                        },
                        true,
                    )
                } else {
                    let (l, found) = Self::with_ratio(*left, split_id, ratio_bits);
                    if found {
                        (
                            LayoutNode::Split {
                                id,
                                direction,
                                ratio_bits: old_bits,
                                left: Box::new(l),
                                right,
                            },
                            true,
                        )
                    } else {
                        let (r, found_right) = Self::with_ratio(*right, split_id, ratio_bits);
                        (
                            LayoutNode::Split {
                                id,
                                direction,
                                ratio_bits: old_bits,
                                left: Box::new(l),
                                right: Box::new(r),
                            },
                            found_right,
                        )
                    }
                }
            },
            LayoutNode::Tabs { id, active_tab, panels } => (
                LayoutNode::Tabs { id, active_tab, panels },
                false,
            ),
            LayoutNode::Empty => (LayoutNode::Empty, false),
        }
    }

    /// Sets the ratio (`f32` bits, clamped to `[0.1, 0.9]`) of the first
    /// split `split_id`, searching each split before its subtrees.
    pub fn update_split_ratio(&mut self, split_id: SplitId, new_ratio_bits: u32) -> (r: Result<(), LayoutError>)
        ensures
            old(self)@.wf() ==> final(self)@.wf(),
            match r {
                Ok(()) => old(self)@.set_ratio(split_id, new_ratio_bits) == Some(final(self)@),
                Err(e) => old(self)@.set_ratio(split_id, new_ratio_bits) is None && e
                    == LayoutError::SplitNotFound(split_id) && final(self)@ == old(self)@,
            },
            (r is Ok) == old(self)@.has_split(split_id),
            r is Ok ==> final(self)@.split_ratio(split_id) == Some(clamp_ratio(new_ratio_bits)),
    {
        proof {
            law_set_ratio_reaches_every_split(old(self)@, split_id, new_ratio_bits);
        }
        let mut node = LayoutNode::Empty;
        std::mem::swap(&mut node, self);
        let (updated, found) = Self::with_ratio(node, split_id, new_ratio_bits);
        *self = updated;
        if found {
            Ok(())
        } else {
            Err(LayoutError::SplitNotFound(split_id))
        }
    }

    fn with_active(node: LayoutNode, tab_id: TabId, index: usize) -> (r: LayoutNode)
        ensures
            r@ == node@.set_active(tab_id, index as nat),
        decreases node,
    {
        match node {
            LayoutNode::Split { id, direction, ratio_bits, left, right } => {
                if left.find_tab_container(tab_id).is_some() {
                    let l = Self::with_active(*left, tab_id, index);
                    LayoutNode::Split { id, direction, ratio_bits, left: Box::new(l), right }
                } else {
                    let r = Self::with_active(*right, tab_id, index);
                    LayoutNode::Split { id, direction, ratio_bits, left, right: Box::new(r) }
                }
            },
            LayoutNode::Tabs { id, active_tab, panels } => {
                if id == tab_id {
                    LayoutNode::Tabs { id, active_tab: index, panels }
                } else {
                    LayoutNode::Tabs { id, active_tab, panels }
                }
            },
            LayoutNode::Empty => LayoutNode::Empty,
        }
    }

    /// Makes tab `tab_index` of container `tab_id` the active one.
    pub fn set_active_tab(&mut self, tab_id: TabId, tab_index: usize) -> (r: Result<(), LayoutError>)
        ensures
            old(self)@.wf() ==> final(self)@.wf(),
            old(self)@.find_tab(tab_id) is None ==> r == Err::<(), LayoutError>(
                LayoutError::TabContainerNotFound(tab_id),
            ) && final(self)@ == old(self)@,
            old(self)@.find_tab(tab_id) matches Some(LayoutModel::Tabs { panels, .. }) ==> if tab_index
                < panels.len() {
                r == Ok::<(), LayoutError>(()) && final(self)@ == old(self)@.set_active(
                    tab_id,
                    tab_index as nat,
                )
            } else {
                r == Err::<(), LayoutError>(LayoutError::TabIndexOutOfBounds(tab_index, panels.len() as usize))
                    && final(self)@ == old(self)@
            },
    {
        proof {
            lemma_find_tab_is_tabs(self@, tab_id);
        }
        let count: Option<usize> = match self.find_tab_container(tab_id) {
            Some(LayoutNode::Tabs { panels, .. }) => Some(panels.len()),
            _ => None,
        };
        match count {
            None => Err(LayoutError::TabContainerNotFound(tab_id)),
            Some(len) => {
                if tab_index < len {
                    proof {
                        if old(self)@.wf() {
                            lemma_set_active_wf(old(self)@, tab_id, tab_index as nat);
                        }
                    }
                    let mut node = LayoutNode::Empty;
                    std::mem::swap(&mut node, self);
                    *self = Self::with_active(node, tab_id, tab_index);
                    Ok(())
                } else {
                    Err(LayoutError::TabIndexOutOfBounds(tab_index, len))
                }
            },
        }
    }

    fn collect_panels(&self, out: &mut Vec<PanelId>)
        ensures
            final(out)@ == old(out)@ + self@.panels(),
        decreases self,
    {
        match self {
            LayoutNode::Split { left, right, .. } => {
                left.collect_panels(out);
                right.collect_panels(out);
                proof {
                    assert(old(out)@ + left@.panels() + right@.panels() == old(out)@ + (
                    left@.panels() + right@.panels()));
                }
            },
            LayoutNode::Tabs { panels, .. } => {
                let mut i: usize = 0;
                while i < panels.len()
                    invariant
                        i <= panels.len(),
                        out@ == old(out)@ + panels@.subrange(0, i as int),
                    decreases panels.len() - i,
                {
                    out.push(panels[i]);
                    proof {
                        assert(panels@.subrange(0, i + 1) == panels@.subrange(0, i as int).push(
                            panels@[i as int],
                        ));
                    }
                    i = i + 1;
                }
                proof {
                    assert(panels@.subrange(0, panels.len() as int) == panels@);
                }
            },
            LayoutNode::Empty => {
                assert(old(out)@ + Seq::<PanelId>::empty() == old(out)@);
            },
        }
    }

    /// Whether every tab container's active index is at most its number
    /// of panels.
    pub fn is_well_formed(&self) -> (r: bool)
        ensures
            r == self@.wf(),
        decreases self,
    {
        match self {
            LayoutNode::Split { left, right, .. } => left.is_well_formed() && right.is_well_formed(),
            LayoutNode::Tabs { active_tab, panels, .. } => *active_tab <= panels.len(),
            LayoutNode::Empty => true,
        }
    }

    /// Every panel of the tree, in order.
    pub fn get_all_panels(&self) -> (r: Vec<PanelId>)
        ensures
            r@ == self@.panels(),
    {
        let mut out: Vec<PanelId> = Vec::new();
        self.collect_panels(&mut out);
        assert(Seq::<PanelId>::empty() + self@.panels() == self@.panels());
        out
    }

    /// Whether the tree shows no panel.
    pub fn is_empty(&self) -> (r: bool)
        ensures
            r == (self@.panels().len() == 0),
    {
        let all = self.get_all_panels();
        all.len() == 0
    }
}

} // verus!
