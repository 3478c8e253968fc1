use lumina::layout::{PanelId, SplitDirection, SplitId, TabId};
use lumina::layout_tree::{clamp_ratio_bits, LayoutError, LayoutNode, RATIO_MAX_BITS, RATIO_MIN_BITS};

fn tab_of(layout: &LayoutNode) -> TabId {
    match layout {
        LayoutNode::Tabs { id, .. } => *id,
        _ => panic!("expected a tab container"),
    }
}

#[test]
fn test_empty_layout() {
    let layout = LayoutNode::empty();
    assert!(layout.is_empty());
    assert_eq!(layout.get_all_panels().len(), 0);
}

#[test]
fn test_single_tab() {
    let panel_id = PanelId::new();
    let layout = LayoutNode::single_tab(panel_id);

    assert!(!layout.is_empty());
    let panels = layout.get_all_panels();
    assert_eq!(panels.len(), 1);
    assert_eq!(panels[0], panel_id);
}

#[test]
fn test_split_layout() {
    let panel1 = PanelId::new();
    let panel2 = PanelId::new();

    let left = LayoutNode::single_tab(panel1);
    let right = LayoutNode::single_tab(panel2);
    let layout = LayoutNode::split(SplitDirection::Horizontal, 0.5f32.to_bits(), left, right);

    let panels = layout.get_all_panels();
    assert_eq!(panels.len(), 2);
    assert!(panels.contains(&panel1));
    assert!(panels.contains(&panel2));
}

#[test]
fn test_optimize_empty() {
    let mut layout = LayoutNode::empty();
    layout.optimize();

    match layout {
        LayoutNode::Empty => {}
        _ => panic!("Empty layout should remain empty after optimization"),
    }
}

#[test]
fn ratio_bounds_are_the_f32_values() {
    assert_eq!(RATIO_MIN_BITS, 0.1f32.to_bits());
    assert_eq!(RATIO_MAX_BITS, 0.9f32.to_bits());
}

#[test]
fn ratios_clamp_like_f32_clamp() {
    for x in [0.5f32, 0.05, 0.95, -3.0, 0.0, -0.0, 0.1, 0.9, 7.5, f32::INFINITY, f32::NEG_INFINITY] {
        let clamped = f32::from_bits(clamp_ratio_bits(x.to_bits()));
        assert_eq!(clamped.to_bits(), x.clamp(0.1, 0.9).to_bits(), "ratio {x}");
    }
    assert!(f32::from_bits(clamp_ratio_bits(f32::NAN.to_bits())).is_nan());
    let split = LayoutNode::split(SplitDirection::Vertical, 2.0f32.to_bits(), LayoutNode::empty(), LayoutNode::empty());
    match split {
        LayoutNode::Split { ratio_bits, direction, .. } => {
            assert_eq!(f32::from_bits(ratio_bits), 0.9);
            assert_eq!(direction, SplitDirection::Vertical);
        }
        _ => panic!("expected a split"),
    }
}

#[test]
fn adding_a_panel_inserts_it_and_moves_the_active_tab() {
    let a = PanelId::new();
    let b = PanelId::new();
    let c = PanelId::new();
    let mut layout = LayoutNode::tabs(vec![a, b]);
    let tab = tab_of(&layout);
    assert_eq!(layout.set_active_tab(tab, 1), Ok(()));
    assert_eq!(layout.add_panel_to_tabs(tab, c, Some(0)), Ok(()));
    assert_eq!(layout.get_all_panels(), vec![c, a, b]);
    match &layout {
        LayoutNode::Tabs { active_tab, .. } => assert_eq!(*active_tab, 2),
        _ => panic!("expected a tab container"),
    }
    let d = PanelId::new();
    assert_eq!(layout.add_panel_to_tabs(tab, d, Some(99)), Ok(()));
    assert_eq!(layout.get_all_panels(), vec![c, a, b, d]);
    let missing = TabId::new();
    assert_eq!(layout.add_panel_to_tabs(missing, d, None), Err(LayoutError::TabContainerNotFound(missing)));
    assert_eq!(layout.get_all_panels(), vec![c, a, b, d]);
}

#[test]
fn panels_are_found_in_their_containers() {
    let a = PanelId::new();
    let b = PanelId::new();
    let left = LayoutNode::single_tab(a);
    let right = LayoutNode::single_tab(b);
    let (ta, tb) = (tab_of(&left), tab_of(&right));
    let layout = LayoutNode::split(SplitDirection::Horizontal, 0.3f32.to_bits(), left, right);
    assert_eq!(layout.find_panel_container(a), Some(ta));
    assert_eq!(layout.find_panel_container(b), Some(tb));
    assert_eq!(layout.find_panel_container(PanelId::new()), None);
    assert!(layout.find_tab_container(tb).is_some());
    assert!(layout.find_tab_container(TabId::new()).is_none());
}

#[test]
fn changing_a_container_in_place() {
    let a = PanelId::new();
    let b = PanelId::new();
    let mut layout = LayoutNode::split(
        SplitDirection::Horizontal,
        0.5f32.to_bits(),
        LayoutNode::empty(),
        LayoutNode::single_tab(a),
    );
    let tab = match &layout {
        LayoutNode::Split { right, .. } => tab_of(right),
        _ => panic!("expected a split"),
    };
    if let Some(LayoutNode::Tabs { panels, .. }) = layout.find_tab_container_mut(tab) {
        panels.push(b);
    } else {
        panic!("container not found");
    }
    assert_eq!(layout.get_all_panels(), vec![a, b]);
}

#[test]
fn removing_panels_and_optimizing() {
    let a = PanelId::new();
    let b = PanelId::new();
    let c = PanelId::new();
    let mut layout = LayoutNode::split(
        SplitDirection::Horizontal,
        0.5f32.to_bits(),
        LayoutNode::single_tab(a),
        LayoutNode::tabs(vec![b, c]),
    );
    let right_tab = match &layout {
        LayoutNode::Split { right, .. } => tab_of(right),
        _ => panic!("expected a split"),
    };
    assert_eq!(layout.set_active_tab(right_tab, 1), Ok(()));
    assert_eq!(layout.remove_panel(c), Ok(()));
    match layout.find_tab_container(right_tab) {
        Some(LayoutNode::Tabs { active_tab, panels, .. }) => {
            assert_eq!(*active_tab, 0);
            assert_eq!(panels, &vec![b]);
        }
        _ => panic!("container not found"),
    }
    assert_eq!(layout.remove_panel(a), Ok(()));
    assert_eq!(layout.remove_panel(a), Err(LayoutError::PanelNotInTabContainer));
    layout.optimize();
    assert_eq!(tab_of(&layout), right_tab);
    assert_eq!(layout.get_all_panels(), vec![b]);
    let mut split = LayoutNode::split(SplitDirection::Horizontal, 0.5f32.to_bits(), LayoutNode::single_tab(a), LayoutNode::empty());
    assert_eq!(split.remove_panel(b), Err(LayoutError::PanelNotInEmptyNode));
}

#[test]
fn active_tab_and_split_ratio_updates() {
    let a = PanelId::new();
    let mut layout = LayoutNode::split(SplitDirection::Horizontal, 0.5f32.to_bits(), LayoutNode::single_tab(a), LayoutNode::empty());
    let (split_id, tab) = match &layout {
        LayoutNode::Split { id, left, .. } => (*id, tab_of(left)),
        _ => panic!("expected a split"),
    };
    assert_eq!(layout.set_active_tab(tab, 1), Err(LayoutError::TabIndexOutOfBounds(1, 1)));
    let missing = TabId::new();
    assert_eq!(layout.set_active_tab(missing, 0), Err(LayoutError::TabContainerNotFound(missing)));
    assert_eq!(layout.update_split_ratio(split_id, 0.05f32.to_bits()), Ok(()));
    match &layout {
        LayoutNode::Split { ratio_bits, .. } => assert_eq!(f32::from_bits(*ratio_bits), 0.1),
        _ => panic!("expected a split"),
    }
    let other = SplitId::new();
    assert_eq!(layout.update_split_ratio(other, 0.5f32.to_bits()), Err(LayoutError::SplitNotFound(other)));
}

#[test]
fn remove_after_add_restores_the_layout() {
    let a = PanelId::new();
    let b = PanelId::new();
    let mut layout = LayoutNode::tabs(vec![a]);
    let tab = tab_of(&layout);
    layout.add_panel_to_tabs(tab, b, Some(0)).unwrap();
    layout.remove_panel(b).unwrap();
    match &layout {
        LayoutNode::Tabs { active_tab, panels, .. } => {
            assert_eq!(*active_tab, 0);
            assert_eq!(panels, &vec![a]);
        }
        _ => panic!("expected a tab container"),
    }
}

#[test]
fn optimizing_twice_changes_nothing_more() {
    let a = PanelId::new();
    let mut layout = LayoutNode::split(
        SplitDirection::Vertical,
        0.5f32.to_bits(),
        LayoutNode::tabs(vec![]),
        LayoutNode::split(SplitDirection::Horizontal, 0.5f32.to_bits(), LayoutNode::single_tab(a), LayoutNode::empty()),
    );
    layout.optimize();
    let once = layout.get_all_panels();
    assert_eq!(once, vec![a]);
    let tab = tab_of(&layout);
    layout.optimize();
    assert_eq!(tab_of(&layout), tab);
    let mut empty = LayoutNode::split(SplitDirection::Vertical, 0.5f32.to_bits(), LayoutNode::tabs(vec![]), LayoutNode::empty());
    empty.optimize();
    assert!(matches!(empty, LayoutNode::Empty));
}
