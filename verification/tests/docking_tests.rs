use lumina::docking::{DockTarget, DockingManager};
use lumina::layout::{BuiltinPanelId, NodeId, PanelId, SplitDirection};
use lumina::layout_tree::{LayoutError, LayoutNode};

#[test]
fn test_docking_manager_creation() {
    let manager = DockingManager::new();
    assert!(manager.root_node().is_empty());
    assert_eq!(manager.get_all_panels().len(), 0);
}

#[test]
fn test_add_panel() {
    let mut manager = DockingManager::new();
    let panel_id = PanelId::new();

    manager.add_panel(panel_id, "Test Panel".to_string());

    assert!(!manager.root_node().is_empty());
    assert_eq!(manager.get_all_panels().len(), 1);
    assert!(manager.get_all_panels().contains(&panel_id));
}

#[test]
fn default_layout_shows_the_editor_panels() {
    let manager = DockingManager::with_default_layout();
    assert_eq!(
        manager.root_node().get_all_panels(),
        vec![BuiltinPanelId::SceneEditor.panel_id(), BuiltinPanelId::PropertyInspector.panel_id()]
    );
    assert_eq!(manager.get_active_panel(), Some(BuiltinPanelId::SceneEditor.panel_id()));
    assert!(DockingManager::default().root_node().is_empty());
}

#[test]
fn panels_dock_into_containers_and_leave_again() {
    let mut manager = DockingManager::new();
    let a = PanelId::new();
    let b = PanelId::new();
    manager.add_panel(a, "A".to_string());
    manager.add_panel(b, "B".to_string());
    assert_eq!(manager.root_node().get_all_panels(), vec![a]);
    let tab = manager.root_node().find_panel_container(a).unwrap();
    assert_eq!(manager.dock_panel(b, DockTarget::Tab { tab_id: tab, index: None }), Ok(()));
    assert_eq!(manager.root_node().get_all_panels(), vec![a, b]);
    assert_eq!(manager.tab_titles(&vec![a, PanelId::new(), b]), vec!["A".to_string(), "B".to_string()]);
    let elsewhere = DockTarget::Split { target_node: NodeId::new(), direction: SplitDirection::Vertical, ratio_bits: 0.5f32.to_bits() };
    assert_eq!(manager.dock_panel(a, elsewhere), Ok(()));
    assert_eq!(manager.root_node().get_all_panels(), vec![a, b]);
    let missing = lumina::layout::TabId::new();
    assert_eq!(
        manager.dock_panel(a, DockTarget::Tab { tab_id: missing, index: None }),
        Err(LayoutError::TabContainerNotFound(missing))
    );
    assert_eq!(manager.remove_panel(a), Some("A".to_string()));
    assert_eq!(manager.get_all_panels(), vec![b]);
    assert_eq!(manager.get_active_panel(), Some(b));
    assert_eq!(manager.remove_panel(a), None);
    assert_eq!(manager.remove_panel(b), Some("B".to_string()));
    assert!(matches!(manager.root_node(), LayoutNode::Empty));
    assert_eq!(manager.get_active_panel(), None);
}

#[test]
fn registering_again_replaces_the_title() {
    let mut manager = DockingManager::new();
    let a = PanelId::new();
    manager.add_panel(a, "Old".to_string());
    manager.add_panel(a, "New".to_string());
    assert_eq!(manager.get_all_panels(), vec![a]);
    assert_eq!(manager.tab_titles(&vec![a]), vec!["New".to_string()]);
}
