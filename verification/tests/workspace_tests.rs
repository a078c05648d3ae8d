use mondrian::containers::Container;
use mondrian::focus_history::FocusHistory;
use mondrian::geometry::Area;
use mondrian::placement::WorkspaceSwitch;
use mondrian::result::TilesManagerError;
use mondrian::utils::AreaLeaf;
use mondrian::window::WindowRef;
use mondrian::workspaces::{activate_workspace, WorkspaceKey, WorkspaceState};

fn key(vd: u128, monitor: &str, ws: &str) -> WorkspaceKey {
    WorkspaceKey { vd, monitor: monitor.to_string(), workspace: ws.to_string() }
}

fn leaf(h: isize, x: i32, y: i32) -> AreaLeaf<WindowRef> {
    AreaLeaf { id: WindowRef::new(h), viewbox: Area::new(x, y, 100, 100) }
}

fn container(leaves: Vec<AreaLeaf<WindowRef>>) -> Container<Vec<AreaLeaf<WindowRef>>> {
    Container::new(leaves, vec![], vec![])
}

fn state() -> WorkspaceState {
    WorkspaceState {
        current_vd: 1,
        active: vec![
            (key(1, "MONITOR1", "a"), container(vec![leaf(1, 0, 0)])),
            (key(1, "MONITOR2", "x"), container(vec![leaf(2, 0, 0)])),
        ],
        inactive: vec![(key(1, "MONITOR1", "b"), container(vec![leaf(5, 500, 0), leaf(6, 0, 300)]))],
        focus_history: FocusHistory::new(),
        last_focused_monitor: None,
    }
}

fn ids(c: &Container<Vec<AreaLeaf<WindowRef>>>) -> Vec<isize> {
    c.tree().iter().map(|l| l.id.hwnd).collect()
}

#[test]
fn unknown_monitor_is_reported() {
    let mut s = state();
    let r = activate_workspace(&mut s, &"MONITOR9".to_string(), &"b".to_string(), false, true, Ok(container(vec![])));
    assert_eq!(r, Err(TilesManagerError::MonitorNotFound("MONITOR9".to_string())));
    assert_eq!(s.active.len(), 2);
    assert_eq!(s.inactive.len(), 1);
}

#[test]
fn current_workspace_changes_nothing() {
    let mut s = state();
    let r = activate_workspace(&mut s, &"MONITOR1".to_string(), &"a".to_string(), false, true, Ok(container(vec![])));
    assert_eq!(r, Ok(WorkspaceSwitch::NoChange));
    assert_eq!(s.active[0].0.workspace, "a");
    assert_eq!(s.inactive.len(), 1);
    assert_eq!(s.last_focused_monitor, None);
}

#[test]
fn existing_workspace_is_swapped_in_and_the_old_one_kept() {
    let mut s = state();
    let r = activate_workspace(&mut s, &"MONITOR1".to_string(), &"b".to_string(), false, true, Ok(container(vec![])));
    // No window of "b" was focused before: its top left window gets the focus.
    assert_eq!(r, Ok(WorkspaceSwitch::Switch { focus: Some(WindowRef::new(6)) }));
    assert_eq!(s.active[0].0.workspace, "b");
    assert_eq!(ids(&s.active[0].1), vec![5, 6]);
    assert_eq!(s.active[1].0.workspace, "x");
    assert_eq!(s.inactive.len(), 1);
    assert_eq!(s.inactive[0].0.workspace, "a");
    assert_eq!(ids(&s.inactive[0].1), vec![1]);
    assert_eq!(s.last_focused_monitor, None);
}

#[test]
fn most_recently_focused_window_wins() {
    let mut s = state();
    s.focus_history.update(WindowRef::new(6));
    s.focus_history.update(WindowRef::new(5));
    let r = activate_workspace(&mut s, &"MONITOR1".to_string(), &"b".to_string(), true, true, Ok(container(vec![])));
    assert_eq!(r, Ok(WorkspaceSwitch::Switch { focus: Some(WindowRef::new(5)) }));
}

#[test]
fn new_workspace_takes_the_fresh_container() {
    let mut s = state();
    let r = activate_workspace(&mut s, &"MONITOR2".to_string(), &"y".to_string(), false, true, Ok(container(vec![])));
    assert_eq!(r, Ok(WorkspaceSwitch::Switch { focus: None }));
    assert_eq!(s.active[1].0.workspace, "y");
    assert_eq!(s.active[1].0.vd, 1);
    assert_eq!(ids(&s.active[1].1), Vec::<isize>::new());
    assert_eq!(s.inactive.len(), 2);
    assert_eq!(s.inactive[1].0.workspace, "x");
    // Not silent and no window to focus: the monitor is the last focused.
    assert_eq!(s.last_focused_monitor, Some("MONITOR2".to_string()));
}

#[test]
fn silent_switch_without_focus_leaves_the_last_focused_monitor() {
    let mut s = state();
    let r = activate_workspace(&mut s, &"MONITOR1".to_string(), &"b".to_string(), true, false, Ok(container(vec![])));
    assert_eq!(r, Ok(WorkspaceSwitch::Switch { focus: None }));
    assert_eq!(s.last_focused_monitor, None);
}

#[test]
fn failure_to_make_a_container_changes_nothing() {
    let mut s = state();
    let r = activate_workspace(&mut s, &"MONITOR2".to_string(), &"y".to_string(), false, true, Err(TilesManagerError::NoMonitorFound));
    assert_eq!(r, Err(TilesManagerError::NoMonitorFound));
    assert_eq!(s.active[1].0.workspace, "x");
    assert_eq!(s.inactive.len(), 1);
}
