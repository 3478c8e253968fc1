use lumina::layout::{PanelId, TabId};
use lumina::tab_bar::TabBar;

#[test]
fn test_tab_bar_creation() {
    let tab_id = TabId::new();
    let panel_ids = vec![PanelId::new(), PanelId::new()];
    let titles = vec!["Tab 1".to_string(), "Tab 2".to_string()];

    let tab_bar = TabBar::new(tab_id, panel_ids.clone(), titles);

    assert_eq!(tab_bar.tabs.len(), 2);
    assert_eq!(tab_bar.active_tab, 0);
    assert_eq!(tab_bar.get_active_panel(), Some(panel_ids[0]));
}

#[test]
fn test_tab_selection() {
    let tab_id = TabId::new();
    let panel_ids = vec![PanelId::new(), PanelId::new()];
    let titles = vec!["Tab 1".to_string(), "Tab 2".to_string()];

    let mut tab_bar = TabBar::new(tab_id, panel_ids.clone(), titles);

    tab_bar.set_active_tab(1);
    assert_eq!(tab_bar.active_tab, 1);
    assert_eq!(tab_bar.get_active_panel(), Some(panel_ids[1]));
}

#[test]
fn test_add_remove_tab() {
    let tab_id = TabId::new();
    let panel_ids = vec![PanelId::new()];
    let titles = vec!["Tab 1".to_string()];

    let mut tab_bar = TabBar::new(tab_id, panel_ids, titles);

    let new_panel = PanelId::new();
    tab_bar.add_tab(new_panel, "New Tab".to_string(), None);
    assert_eq!(tab_bar.tabs.len(), 2);

    let removed = tab_bar.remove_tab(1);
    assert_eq!(removed, Some(new_panel));
    assert_eq!(tab_bar.tabs.len(), 1);
}

#[test]
fn tabs_pair_panels_with_titles_and_flag_the_active_one() {
    let ids = vec![PanelId::new(), PanelId::new(), PanelId::new()];
    let bar = TabBar::new(TabId::new(), ids.clone(), vec!["A".to_string(), "B".to_string()]);
    assert_eq!(bar.get_all_panels(), vec![ids[0], ids[1]]);
    assert_eq!(bar.tabs[1].title, "B");
    assert!(bar.tabs[0].active && !bar.tabs[1].active);
    assert!(bar.tabs.iter().all(|t| t.can_close));
    assert!(!bar.is_empty());
}

#[test]
fn active_index_follows_removals() {
    let ids = vec![PanelId::new(), PanelId::new(), PanelId::new()];
    let titles = vec!["A".to_string(), "B".to_string(), "C".to_string()];
    let mut bar = TabBar::new(TabId::new(), ids.clone(), titles);
    bar.set_active_tab(2);
    bar.set_active_tab(7);
    assert_eq!(bar.active_tab, 2);
    assert_eq!(bar.remove_tab(0), Some(ids[0]));
    assert_eq!(bar.active_tab, 1);
    assert_eq!(bar.get_active_panel(), Some(ids[2]));
    assert_eq!(bar.remove_tab(1), Some(ids[2]));
    assert_eq!(bar.active_tab, 0);
    assert!(bar.tabs[0].active);
    assert_eq!(bar.remove_tab(5), None);
    assert_eq!(bar.remove_tab(0), Some(ids[1]));
    assert!(bar.is_empty());
    assert_eq!(bar.get_active_panel(), None);
}

#[test]
fn inserting_before_the_active_tab_keeps_its_index() {
    let ids = vec![PanelId::new(), PanelId::new()];
    let mut bar = TabBar::new(TabId::new(), ids.clone(), vec!["A".to_string(), "B".to_string()]);
    bar.set_active_tab(1);
    let p = PanelId::new();
    bar.add_tab(p, "P".to_string(), Some(0));
    assert_eq!(bar.get_all_panels(), vec![p, ids[0], ids[1]]);
    assert_eq!(bar.active_tab, 1);
    assert!(bar.tabs[1].active && !bar.tabs[0].active && !bar.tabs[2].active);
}
