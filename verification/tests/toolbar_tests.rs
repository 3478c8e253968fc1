use lumina::toolbar::{EditorToolbar, ToolType, ToolbarAction};

#[test]
fn test_toolbar_creation() {
    let mut toolbar = EditorToolbar::new();
    assert_eq!(toolbar.selected_tool(), ToolType::Select);
    assert_eq!(toolbar.take_pending_actions().len(), 0);
}

#[test]
fn test_tool_properties() {
    assert_eq!(ToolType::Select.display_name(), "Select");
    assert_eq!(ToolType::Move.icon(), "↔️");
    assert_eq!(ToolType::Scale.shortcut(), "S");
}

#[test]
fn test_tool_selection() {
    let mut toolbar = EditorToolbar::new();
    assert_eq!(toolbar.selected_tool(), ToolType::Select);

    toolbar.set_selected_tool(ToolType::Move);
    assert_eq!(toolbar.selected_tool(), ToolType::Move);
}

#[test]
fn test_keyboard_shortcuts() {
    let mut toolbar = EditorToolbar::new();

    let action = toolbar.handle_keyboard_shortcut("g");
    match action {
        ToolbarAction::ToolSelected(ToolType::Move) => {
            assert_eq!(toolbar.selected_tool(), ToolType::Move);
        }
        _ => panic!("Expected ToolSelected(Move) action"),
    }

    let action = toolbar.handle_keyboard_shortcut("ctrl+n");
    match action {
        ToolbarAction::NewProject => {}
        _ => panic!("Expected NewProject action"),
    }
}

#[test]
fn shortcuts_ignore_case_and_cover_every_action() {
    let mut toolbar = EditorToolbar::new();
    assert_eq!(toolbar.handle_keyboard_shortcut("E"), ToolbarAction::ToolSelected(ToolType::Eraser));
    assert_eq!(toolbar.selected_tool(), ToolType::Eraser);
    assert_eq!(toolbar.handle_keyboard_shortcut("s"), ToolbarAction::ToolSelected(ToolType::Scale));
    assert_eq!(toolbar.handle_keyboard_shortcut("CTRL+O"), ToolbarAction::OpenProject);
    assert_eq!(toolbar.handle_keyboard_shortcut("ctrl+s"), ToolbarAction::SaveProject);
    assert_eq!(toolbar.handle_keyboard_shortcut("Ctrl+Z"), ToolbarAction::Undo);
    assert_eq!(toolbar.handle_keyboard_shortcut("ctrl+y"), ToolbarAction::Redo);
    assert_eq!(toolbar.handle_keyboard_shortcut("ctrl+shift+z"), ToolbarAction::Redo);
    assert_eq!(toolbar.handle_keyboard_shortcut("Space"), ToolbarAction::Play);
    assert_eq!(toolbar.handle_keyboard_shortcut("x"), ToolbarAction::NoAction);
    // Non-tool shortcuts leave the selected tool alone.
    assert_eq!(toolbar.selected_tool(), ToolType::Scale);
}

#[test]
fn pending_actions_are_taken_in_order() {
    let mut toolbar = EditorToolbar::new();
    toolbar.add_action(ToolbarAction::Play);
    toolbar.add_action(ToolbarAction::Stop);
    assert_eq!(toolbar.take_pending_actions(), vec![ToolbarAction::Play, ToolbarAction::Stop]);
    assert!(toolbar.take_pending_actions().is_empty());
}

#[test]
fn tool_labels() {
    let tools = [ToolType::Select, ToolType::Move, ToolType::Rotate, ToolType::Scale, ToolType::Brush, ToolType::Eraser];
    let names: Vec<&str> = tools.iter().map(|t| t.display_name()).collect();
    assert_eq!(names, vec!["Select", "Move", "Rotate", "Scale", "Brush", "Eraser"]);
    let keys: Vec<&str> = tools.iter().map(|t| t.shortcut()).collect();
    assert_eq!(keys, vec!["V", "G", "R", "S", "B", "E"]);
    assert_eq!(ToolType::Select.icon(), "🔍");
    assert_eq!(ToolType::Eraser.icon(), "🧽");
}
