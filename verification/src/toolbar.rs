//! Editor toolbar: tools, their labels and shortcuts, and the keyboard
//! shortcut dispatch.

use vstd::prelude::*;
use crate::text::{to_lowercase, lowercase_of, ascii_lower, equals_str};

verus! {

broadcast use vstd::string::group_string_axioms;

/// The tools of the editor toolbar.
#[derive(Debug, Clone, Copy, PartialEq, Eq, Structural)]
pub enum ToolType {
    Select,
    Move,
    Rotate,
    Scale,
    Brush,
    Eraser,
}

/// The label of a tool.
pub open spec fn tool_name(t: ToolType) -> Seq<char> {
    match t {
        ToolType::Select => "Select"@,
        ToolType::Move => "Move"@,
        ToolType::Rotate => "Rotate"@,
        ToolType::Scale => "Scale"@,
        ToolType::Brush => "Brush"@,
        ToolType::Eraser => "Eraser"@,
    }
}

/// The icon of a tool.
pub open spec fn tool_icon(t: ToolType) -> Seq<char> {
    match t {
        ToolType::Select => "🔍"@,
        ToolType::Move => "↔️"@,
        ToolType::Rotate => "🔄"@,
        ToolType::Scale => "📏"@,
        ToolType::Brush => "🖌️"@,
        ToolType::Eraser => "🧽"@,
    }
}

/// The shortcut key of a tool.
pub open spec fn tool_shortcut(t: ToolType) -> Seq<char> {
    match t {
        ToolType::Select => "V"@,
        ToolType::Move => "G"@,
        ToolType::Rotate => "R"@,
        ToolType::Scale => "S"@,
        ToolType::Brush => "B"@,
        ToolType::Eraser => "E"@,
    }
}

impl ToolType {
    /// The label of the tool.
    pub fn display_name(self) -> (r: &'static str)
        ensures
            r@ == tool_name(self),
    {
        match self {
            ToolType::Select => "Select",
            ToolType::Move => "Move",
            ToolType::Rotate => "Rotate",
            ToolType::Scale => "Scale",
            ToolType::Brush => "Brush",
            ToolType::Eraser => "Eraser",
        }
    }

    /// The icon of the tool.
    pub fn icon(self) -> (r: &'static str)
        ensures
            r@ == tool_icon(self),
    {
        match self {
            ToolType::Select => "🔍",
            ToolType::Move => "↔️",
            ToolType::Rotate => "🔄",
            ToolType::Scale => "📏",
            ToolType::Brush => "🖌️",
            ToolType::Eraser => "🧽",
        }
    }

    /// The shortcut key of the tool.
    pub fn shortcut(self) -> (r: &'static str)
        ensures
            r@ == tool_shortcut(self),
    {
        match self {
            ToolType::Select => "V",
            ToolType::Move => "G",
            ToolType::Rotate => "R",
            ToolType::Scale => "S",
            ToolType::Brush => "B",
            ToolType::Eraser => "E",
        }
    }
}

/// What a toolbar interaction asks for.
#[derive(Debug, Clone, Copy, PartialEq, Eq, Structural)]
pub enum ToolbarAction {
    ToolSelected(ToolType),
    NewProject,
    OpenProject,
    SaveProject,
    Undo,
    Redo,
    Play,
    Pause,
    Stop,
    NoAction,
}

/// The action of a lowercased shortcut key: a tool's key selects it,
/// then ctrl+n/o/s/z/y (or ctrl+shift+z) and space.
pub open spec fn shortcut_action(k: Seq<char>) -> ToolbarAction {
    if k == seq!['v'] {
        ToolbarAction::ToolSelected(ToolType::Select)
    } else if k == seq!['g'] {
        ToolbarAction::ToolSelected(ToolType::Move)
    } else if k == seq!['r'] {
        ToolbarAction::ToolSelected(ToolType::Rotate)
    } else if k == seq!['s'] {
        ToolbarAction::ToolSelected(ToolType::Scale)
    } else if k == seq!['b'] {
        ToolbarAction::ToolSelected(ToolType::Brush)
    } else if k == seq!['e'] {
        ToolbarAction::ToolSelected(ToolType::Eraser)
    } else if k == "ctrl+n"@ {
        ToolbarAction::NewProject
    } else if k == "ctrl+o"@ {
        ToolbarAction::OpenProject
    } else if k == "ctrl+s"@ {
        ToolbarAction::SaveProject
    } else if k == "ctrl+z"@ {
        ToolbarAction::Undo
    } else if k == "ctrl+y"@ || k == "ctrl+shift+z"@ {
        ToolbarAction::Redo
    } else if k == "space"@ {
        ToolbarAction::Play
    } else {
        ToolbarAction::NoAction
    }
}

/// The lowercase form of a tool's shortcut.
fn lowered_shortcut(t: ToolType) -> (r: String)
    ensures
        r@ == match t {
            ToolType::Select => seq!['v'],
            ToolType::Move => seq!['g'],
            ToolType::Rotate => seq!['r'],
            ToolType::Scale => seq!['s'],
            ToolType::Brush => seq!['b'],
            ToolType::Eraser => seq!['e'],
        },
{
    proof {
        reveal_strlit("V");
        reveal_strlit("G");
        reveal_strlit("R");
        reveal_strlit("S");
        reveal_strlit("B");
        reveal_strlit("E");
    }
    let r = to_lowercase(t.shortcut());
    assert(r@ =~= match t {
        ToolType::Select => seq!['v'],
        ToolType::Move => seq!['g'],
        ToolType::Rotate => seq!['r'],
        ToolType::Scale => seq!['s'],
        ToolType::Brush => seq!['b'],
        ToolType::Eraser => seq!['e'],
    });
    r
}

/// The toolbar state: the selected tool and the actions raised by its
/// buttons that wait to be handled.
pub struct EditorToolbar {
    selected_tool: ToolType,
    pending_actions: Vec<ToolbarAction>,
}

impl EditorToolbar {
    /// The selected tool.
    pub closed spec fn spec_selected(&self) -> ToolType {
        self.selected_tool
    }

    /// The actions waiting to be handled, oldest first.
    pub closed spec fn pending(&self) -> Seq<ToolbarAction> {
        self.pending_actions@
    }

    /// A toolbar with the select tool and nothing pending.
    pub fn new() -> (r: Self)
        ensures
            r.spec_selected() == ToolType::Select,
            r.pending() == Seq::<ToolbarAction>::empty(),
    {
        EditorToolbar { selected_tool: ToolType::Select, pending_actions: Vec::new() }
    }

    /// The selected tool.
    pub fn selected_tool(&self) -> (r: ToolType)
        ensures
            r == self.spec_selected(),
    {
        self.selected_tool
    }

    /// Selects `tool`.
    pub fn set_selected_tool(&mut self, tool: ToolType)
        ensures
            final(self).spec_selected() == tool,
            final(self).pending() == old(self).pending(),
    {
        if self.selected_tool != tool {
            self.selected_tool = tool;
        }
    }

    /// Hands out the pending actions and leaves none.
    pub fn take_pending_actions(&mut self) -> (r: Vec<ToolbarAction>)
        ensures
            r@ == old(self).pending(),
            final(self).pending() == Seq::<ToolbarAction>::empty(),
            final(self).spec_selected() == old(self).spec_selected(),
    {
        let mut taken: Vec<ToolbarAction> = Vec::new();
        std::mem::swap(&mut taken, &mut self.pending_actions);
        taken
    }

    /// Queues `action`.
    pub fn add_action(&mut self, action: ToolbarAction)
        ensures
            final(self).pending() == old(self).pending().push(action),
            final(self).spec_selected() == old(self).spec_selected(),
    {
        self.pending_actions.push(action);
    }

    /// Handles a shortcut key, compared case-insensitively: a tool's key
    /// selects that tool, the other shortcuts name their action.
    pub fn handle_keyboard_shortcut(&mut self, key: &str) -> (r: ToolbarAction)
        ensures
            r == shortcut_action(lowercase_of(key@)),
            final(self).spec_selected() == match r {
                ToolbarAction::ToolSelected(t) => t,
                _ => old(self).spec_selected(),
            },
            final(self).pending() == old(self).pending(),
    {
        let k = to_lowercase(key);
        let tools = [
            ToolType::Select,
            ToolType::Move,
            ToolType::Rotate,
            ToolType::Scale,
            ToolType::Brush,
            ToolType::Eraser,
        ];
        let mut i: usize = 0;
        while i < 6
            invariant
                i <= 6,
                tools@ == seq![ToolType::Select, ToolType::Move, ToolType::Rotate, ToolType::Scale, ToolType::Brush, ToolType::Eraser],
                k@ == lowercase_of(key@),
                *self == *old(self),
                forall|j: int| 0 <= j < i ==> shortcut_action(k@) != ToolbarAction::ToolSelected(tools@[j]),
                i >= 1 ==> k@ != seq!['v'],
                i >= 2 ==> k@ != seq!['g'],
                i >= 3 ==> k@ != seq!['r'],
                i >= 4 ==> k@ != seq!['s'],
                i >= 5 ==> k@ != seq!['b'],
                i >= 6 ==> k@ != seq!['e'],
            decreases 6 - i,
        {
            let tool = tools[i];
            let lowered = lowered_shortcut(tool);
            if lowered == k {
                self.set_selected_tool(tool);
                return ToolbarAction::ToolSelected(tool);
            }
            i = i + 1;
        }
        if equals_str(&k, "ctrl+n") {
            ToolbarAction::NewProject
        } else if equals_str(&k, "ctrl+o") {
            ToolbarAction::OpenProject
        } else if equals_str(&k, "ctrl+s") {
            ToolbarAction::SaveProject
        } else if equals_str(&k, "ctrl+z") {
            ToolbarAction::Undo
        } else if equals_str(&k, "ctrl+y") || equals_str(&k, "ctrl+shift+z") {
            ToolbarAction::Redo
        } else if equals_str(&k, "space") {
            ToolbarAction::Play
        } else {
            ToolbarAction::NoAction
        }
    }

    /// Per-frame update; the toolbar has no state that changes over time.
    pub fn update(&mut self)
        ensures
            *final(self) == *old(self),
    {
    }
}

impl Default for EditorToolbar {
    fn default() -> (r: Self)
        ensures
            r.spec_selected() == ToolType::Select,
            r.pending() == Seq::<ToolbarAction>::empty(),
    {
        EditorToolbar::new()
    }
}

} // verus!
