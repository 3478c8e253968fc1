//! Docking layout of the editor: identifiers, directions and positions,
//! built-in panels, context menus and tab actions.

use vstd::prelude::*;
use crate::utils::{random_uuid_bits, hash_string, string_hash};

verus! {

/// `h` with its eight bytes in reverse order.
pub open spec fn byte_swap(h: u64) -> u64 {
    ((h & 0xff) << 56u64) | (((h >> 8u64) & 0xff) << 48u64) | (((h >> 16u64) & 0xff) << 40u64)
        | (((h >> 24u64) & 0xff) << 32u64) | (((h >> 32u64) & 0xff) << 24u64) | (((h >> 40u64)
        & 0xff) << 16u64) | (((h >> 48u64) & 0xff) << 8u64) | ((h >> 56u64) & 0xff)
}

/// The 128-bit value of the UUID whose 16 bytes are the little-endian
/// bytes of `h` twice (UUIDs read their bytes big-endian).
pub open spec fn doubled_uuid(h: u64) -> u128 {
    ((byte_swap(h) as u128) << 64u128) | (byte_swap(h) as u128)
}

/// Identifies a dockable panel (a UUID as a 128-bit integer).
#[derive(Debug, Clone, Copy, PartialEq, Eq, Hash, Structural)]
pub struct PanelId(pub u128);

impl PanelId {
    /// A random version-4 UUID.
    pub fn new() -> (r: Self)
        ensures
            (r.0 >> 76u128) & 0xfu128 == 4u128,
            (r.0 >> 62u128) & 3u128 == 2u128,
    {
        PanelId(random_uuid_bits())
    }

    /// The identifier of a built-in panel: the string hash of its name,
    /// whose little-endian bytes fill both halves of the UUID.
    pub fn from_name(name: &str) -> (r: Self)
        ensures
            r.0 == doubled_uuid(string_hash(name@)),
    {
        let h = hash_string(name);
        let swapped: u64 = ((h & 0xff) << 56u64) | (((h >> 8u64) & 0xff) << 48u64) | (((h
            >> 16u64) & 0xff) << 40u64) | (((h >> 24u64) & 0xff) << 32u64) | (((h >> 32u64)
            & 0xff) << 24u64) | (((h >> 40u64) & 0xff) << 16u64) | (((h >> 48u64) & 0xff)
            << 8u64) | ((h >> 56u64) & 0xff);
        PanelId(((swapped as u128) << 64u128) | (swapped as u128))
    }
}

/// Identifies a split node (a UUID as a 128-bit integer).
#[derive(Debug, Clone, Copy, PartialEq, Eq, Hash, Structural)]
pub struct SplitId(pub u128);

impl SplitId {
    /// A random version-4 UUID.
    pub fn new() -> (r: Self)
        ensures
            (r.0 >> 76u128) & 0xfu128 == 4u128,
            (r.0 >> 62u128) & 3u128 == 2u128,
    {
        SplitId(random_uuid_bits())
    }
}

/// Identifies a tab container (a UUID as a 128-bit integer).
#[derive(Debug, Clone, Copy, PartialEq, Eq, Hash, Structural)]
pub struct TabId(pub u128);

impl TabId {
    /// A random version-4 UUID.
    pub fn new() -> (r: Self)
        ensures
            (r.0 >> 76u128) & 0xfu128 == 4u128,
            (r.0 >> 62u128) & 3u128 == 2u128,
    {
        TabId(random_uuid_bits())
    }
}

/// Identifies a layout node (a UUID as a 128-bit integer).
#[derive(Debug, Clone, Copy, PartialEq, Eq, Hash, Structural)]
pub struct NodeId(pub u128);

impl NodeId {
    /// A random version-4 UUID.
    pub fn new() -> (r: Self)
        ensures
            (r.0 >> 76u128) & 0xfu128 == 4u128,
            (r.0 >> 62u128) & 3u128 == 2u128,
    {
        NodeId(random_uuid_bits())
    }
}

/// How a split divides its area.
#[derive(Debug, Clone, Copy, PartialEq, Eq, Structural)]
pub enum SplitDirection {
    /// Left and right halves.
    Horizontal,
    /// Top and bottom halves.
    Vertical,
}

/// Where to dock relative to a node.
#[derive(Debug, Clone, Copy, PartialEq, Eq, Structural)]
pub enum DockPosition {
    Left,
    Right,
    Top,
    Bottom,
    Center,
}

/// How a drop zone is drawn.
#[derive(Debug, Clone, Copy, PartialEq, Eq, Structural)]
pub enum DropZoneStyle {
    Left,
    Right,
    Top,
    Bottom,
    Center,
}

/// Sides a panel can be docked to.
#[derive(Debug, Clone, Copy, PartialEq, Eq, Structural)]
pub enum DockSide {
    Left,
    Right,
    Top,
    Bottom,
    Center,
}

/// The editor's own panels.
#[derive(Debug, Clone, Copy, PartialEq, Eq, Structural)]
pub enum BuiltinPanelId {
    MenuBar,
    ProjectPanel,
    SceneEditor,
    PropertyInspector,
    AssetBrowser,
    ConsolePanel,
    VisualScriptEditor,
}

/// The name a built-in panel's identifier is derived from.
pub open spec fn builtin_panel_key(p: BuiltinPanelId) -> Seq<char> {
    match p {
        BuiltinPanelId::MenuBar => "MenuBar"@,
        BuiltinPanelId::ProjectPanel => "ProjectPanel"@,
        BuiltinPanelId::SceneEditor => "SceneEditor"@,
        BuiltinPanelId::PropertyInspector => "PropertyInspector"@,
        BuiltinPanelId::AssetBrowser => "AssetBrowser"@,
        BuiltinPanelId::ConsolePanel => "ConsolePanel"@,
        BuiltinPanelId::VisualScriptEditor => "VisualScriptEditor"@,
    }
}

/// The fixed identifier of a built-in panel.
pub open spec fn builtin_panel_id(p: BuiltinPanelId) -> PanelId {
    PanelId(doubled_uuid(string_hash(builtin_panel_key(p))))
}

/// The title of a built-in panel.
pub open spec fn builtin_panel_title(p: BuiltinPanelId) -> Seq<char> {
    match p {
        BuiltinPanelId::MenuBar => "Menu Bar"@,
        BuiltinPanelId::ProjectPanel => "Project"@,
        BuiltinPanelId::SceneEditor => "Scene Editor"@,
        BuiltinPanelId::PropertyInspector => "Properties"@,
        BuiltinPanelId::AssetBrowser => "Assets"@,
        BuiltinPanelId::ConsolePanel => "Console"@,
        BuiltinPanelId::VisualScriptEditor => "Visual Script"@,
    }
}

impl BuiltinPanelId {
    /// The fixed identifier of the panel, derived from its name.
    pub fn panel_id(self) -> (r: PanelId)
        ensures
            r == builtin_panel_id(self),
    {
        match self {
            BuiltinPanelId::MenuBar => PanelId::from_name("MenuBar"),
            BuiltinPanelId::ProjectPanel => PanelId::from_name("ProjectPanel"),
            BuiltinPanelId::SceneEditor => PanelId::from_name("SceneEditor"),
            BuiltinPanelId::PropertyInspector => PanelId::from_name("PropertyInspector"),
            BuiltinPanelId::AssetBrowser => PanelId::from_name("AssetBrowser"),
            BuiltinPanelId::ConsolePanel => PanelId::from_name("ConsolePanel"),
            BuiltinPanelId::VisualScriptEditor => PanelId::from_name("VisualScriptEditor"),
        }
    }

    /// The title of the panel.
    pub fn title(self) -> (r: &'static str)
        ensures
            r@ == builtin_panel_title(self),
    {
        match self {
            BuiltinPanelId::MenuBar => "Menu Bar",
            BuiltinPanelId::ProjectPanel => "Project",
            BuiltinPanelId::SceneEditor => "Scene Editor",
            BuiltinPanelId::PropertyInspector => "Properties",
            BuiltinPanelId::AssetBrowser => "Assets",
            BuiltinPanelId::ConsolePanel => "Console",
            BuiltinPanelId::VisualScriptEditor => "Visual Script",
        }
    }
}

/// An entry of a panel's context menu.
#[derive(Debug, Clone)]
pub struct ContextMenuItem {
    pub id: String,
    pub label: String,
    pub enabled: bool,
    pub separator_after: bool,
}

impl ContextMenuItem {
    /// An enabled item without a separator.
    pub fn new(id: String, label: String) -> (r: Self)
        ensures
            r.id == id,
            r.label == label,
            r.enabled,
            !r.separator_after,
    {
        ContextMenuItem { id, label, enabled: true, separator_after: false }
    }

    /// The same item followed by a separator.
    pub fn with_separator(self) -> (r: Self)
        ensures
            r.id == self.id,
            r.label == self.label,
            r.enabled == self.enabled,
            r.separator_after,
    {
        let mut s = self;
        s.separator_after = true;
        s
    }

    /// The same item, disabled.
    pub fn disabled(self) -> (r: Self)
        ensures
            r.id == self.id,
            r.label == self.label,
            !r.enabled,
            r.separator_after == self.separator_after,
    {
        let mut s = self;
        s.enabled = false;
        s
    }
}

/// What a click on a tab bar asks for.
#[derive(Debug, Clone, Copy, PartialEq, Eq, Structural)]
pub enum TabAction {
    SelectTab(usize),
    CloseTab(usize),
    StartDrag(usize),
    NoAction,
}

} // verus!
