use mondrian::containers::ContainerLayer;
use mondrian::geometry::Area;
use mondrian::placement::{add_plan, add_target, top_left, workspace_switch, AddTarget, WorkspaceSwitch};
use mondrian::rules::{AddOptions, WorkspaceOptions};
use mondrian::tm::WindowTileState;
use mondrian::utils::AreaLeaf;
use mondrian::window::WindowRef;

fn monitors() -> Vec<(String, Area)> {
    vec![
        ("MONITOR1".to_string(), Area::new(0, 0, 1920, 1080)),
        ("MONITOR2".to_string(), Area::new(1920, 0, 1280, 1024)),
    ]
}

fn options(monitor: Option<&str>, workspace: Option<(&str, bool)>, floating: Option<u8>) -> Option<AddOptions<u8>> {
    Some(AddOptions {
        monitor: monitor.map(|m| m.to_string()),
        workspace_options: workspace.map(|(w, s)| WorkspaceOptions { workspace: w.to_string(), silent: s }),
        floating_config: floating,
    })
}

#[test]
fn add_skips_floating_maximized_and_focalized_windows() {
    for s in [WindowTileState::Floating, WindowTileState::Maximized, WindowTileState::Focalized] {
        let t = add_target::<u8>(Some(s), false, Some((1, 1)), None, &None, true, &monitors());
        assert!(matches!(t, AddTarget::Unchanged));
    }
    let t = add_target::<u8>(Some(WindowTileState::HalfFocalized), false, Some((1, 1)), None, &None, true, &monitors());
    assert!(matches!(t, AddTarget::At((1, 1))));
}

#[test]
fn add_activates_the_inactive_workspace_of_the_window() {
    let t = add_target::<u8>(None, true, Some((1, 1)), None, &None, true, &monitors());
    assert!(matches!(t, AddTarget::ActivateWorkspace));
}

#[test]
fn add_without_position_fails() {
    let t = add_target(None, false, None, None, &options(Some("MONITOR2"), None, None), true, &monitors());
    assert!(matches!(t, AddTarget::NoPosition));
}

#[test]
fn add_prefers_the_given_position_then_the_window_center() {
    let t = add_target::<u8>(None, false, Some((5, 6)), Some((7, 8)), &None, true, &monitors());
    assert!(matches!(t, AddTarget::At((5, 6))));
    let t = add_target::<u8>(None, false, None, Some((7, 8)), &None, true, &monitors());
    assert!(matches!(t, AddTarget::At((7, 8))));
}

#[test]
fn add_follows_the_monitor_of_the_rules() {
    let o = options(Some("MONITOR2"), None, None);
    let t = add_target(None, false, None, Some((7, 8)), &o, true, &monitors());
    assert!(matches!(t, AddTarget::At((2560, 512))));
    let t = add_target(None, false, None, Some((7, 8)), &o, false, &monitors());
    assert!(matches!(t, AddTarget::At((7, 8))));
    let o = options(Some("MONITOR9"), None, None);
    let t = add_target(None, false, None, Some((7, 8)), &o, true, &monitors());
    assert!(matches!(t, AddTarget::At((7, 8))));
}

#[test]
fn add_plan_for_a_rule_workspace() {
    let o = options(None, Some(("ws2", false)), None);
    let p = add_plan(&o, true, false, &"ws1".to_string(), ContainerLayer::Normal, false);
    assert_eq!(p.workspace.as_ref().map(|w| w.workspace.clone()), Some("ws2".to_string()));
    assert!(!p.silent);
    assert!(!p.switch_back);
    assert!(!p.restore_maximized);
    assert!(!p.restore_monitor);
    assert!(!p.release_floating);
    let p = add_plan(&o, true, true, &"ws1".to_string(), ContainerLayer::Normal, false);
    assert!(p.silent);
    assert!(p.switch_back);
}

#[test]
fn add_plan_released_window_does_not_switch_back() {
    let o = options(None, Some(("ws2", true)), Some(3));
    let p = add_plan(&o, true, false, &"ws1".to_string(), ContainerLayer::Normal, false);
    assert!(p.silent);
    assert!(p.release_floating);
    assert!(!p.switch_back);
}

#[test]
fn add_plan_ignores_the_current_workspace_and_unfollowed_rules() {
    let o = options(None, Some(("ws1", true)), Some(3));
    let p = add_plan(&o, true, false, &"ws1".to_string(), ContainerLayer::Focalized, false);
    assert!(p.workspace.is_none());
    assert!(!p.silent);
    assert!(p.restore_maximized);
    assert!(p.restore_monitor);
    assert!(p.release_floating);
    let p = add_plan(&o, false, false, &"ws0".to_string(), ContainerLayer::HalfFocalized, true);
    assert!(p.workspace.is_none());
    assert!(!p.restore_monitor);
    assert!(!p.release_floating);
}

fn leaf(id: isize, x: i32, y: i32) -> AreaLeaf<WindowRef> {
    AreaLeaf { id: WindowRef::new(id), viewbox: Area::new(x, y, 10, 10) }
}

#[test]
fn top_left_leaf_is_leftmost_then_topmost() {
    let leaves = vec![leaf(1, 50, 0), leaf(2, 0, 30), leaf(3, 0, 10), leaf(4, 0, 10)];
    assert_eq!(top_left(&leaves), Some(2));
    assert_eq!(top_left(&vec![]), None);
}

#[test]
fn workspace_switch_focus_choice() {
    let leaves = vec![leaf(1, 50, 0), leaf(2, 0, 30)];
    let ws1 = "ws1".to_string();
    let ws2 = "ws2".to_string();
    assert_eq!(workspace_switch(&ws1, &ws1, &leaves, None, true), WorkspaceSwitch::NoChange);
    assert_eq!(
        workspace_switch(&ws1, &ws2, &leaves, None, true),
        WorkspaceSwitch::Switch { focus: Some(WindowRef::new(2)) }
    );
    assert_eq!(
        workspace_switch(&ws1, &ws2, &leaves, Some(leaf(1, 50, 0)), true),
        WorkspaceSwitch::Switch { focus: Some(WindowRef::new(1)) }
    );
    assert_eq!(workspace_switch(&ws1, &ws2, &leaves, None, false), WorkspaceSwitch::Switch { focus: None });
    assert_eq!(workspace_switch(&ws1, &ws2, &vec![], None, true), WorkspaceSwitch::Switch { focus: None });
}
