use mondrian::focus::{amplify_target, get_floating_win_area, switch_focus_target, workspace_monitor, FloatingSize};
use mondrian::geometry::Area;
use mondrian::result::TilesManagerError;
use mondrian::tm::WindowTileState;
use mondrian::utils::AreaLeaf;
use mondrian::window::WindowRef;

fn w(h: isize) -> WindowRef {
    WindowRef::new(h)
}

#[test]
fn floating_area_sizes() {
    let monitor = Area::new(0, 0, 1920, 1080);
    let win = Some(Area::new(100, 50, 800, 600));
    assert_eq!(get_floating_win_area(&monitor, win, FloatingSize::Preserve, false), Ok(Area::new(100, 50, 800, 600)));
    assert_eq!(get_floating_win_area(&monitor, win, FloatingSize::Preserve, true), Ok(Area::new(560, 240, 800, 600)));
    assert_eq!(
        get_floating_win_area(&monitor, win, FloatingSize::Fixed { w: 3000, h: 400 }, true),
        Ok(Area::new(0, 340, 1920, 400))
    );
    assert_eq!(
        get_floating_win_area(&monitor, win, FloatingSize::Resolved { w: 960, h: 540 }, false),
        Ok(Area::new(100, 50, 960, 540))
    );
}

#[test]
fn floating_area_needs_the_window_area() {
    let monitor = Area::new(0, 0, 1920, 1080);
    assert_eq!(
        get_floating_win_area(&monitor, None, FloatingSize::Preserve, true),
        Err(TilesManagerError::NoWindowsInfo)
    );
}

#[test]
fn switch_focus_between_tiled_and_floating() {
    let managed = vec![(w(1), (0, 0)), (w(2), (100, 0)), (w(3), (90, 0))];
    let floating = vec![(w(7), (500, 500)), (w(8), (60, 0)), (w(9), (40, 0))];
    assert_eq!(switch_focus_target(WindowTileState::Floating, w(2), (100, 0), &managed, &floating), Ok(Some(w(3))));
    assert_eq!(switch_focus_target(WindowTileState::Normal, w(1), (50, 0), &managed, &floating), Ok(Some(w(8))));
    assert_eq!(switch_focus_target(WindowTileState::Maximized, w(1), (50, 0), &managed, &floating), Ok(None));
    assert_eq!(
        switch_focus_target(WindowTileState::Normal, w(1), (50, 0), &managed, &vec![]),
        Err(TilesManagerError::NoWindow)
    );
    assert_eq!(
        switch_focus_target(WindowTileState::Floating, w(1), (0, 0), &vec![(w(1), (0, 0))], &floating),
        Err(TilesManagerError::NoWindow)
    );
}

fn leaf(id: isize, width: u16, height: u16) -> AreaLeaf<WindowRef> {
    AreaLeaf { id: w(id), viewbox: Area::new(0, 0, width, height) }
}

#[test]
fn amplify_swaps_with_the_last_biggest_leaf() {
    let leaves = vec![leaf(1, 10, 10), leaf(2, 20, 20), leaf(3, 40, 10)];
    assert_eq!(amplify_target(WindowTileState::Normal, w(1), &leaves), Some(w(3)));
    assert_eq!(amplify_target(WindowTileState::Normal, w(3), &leaves), None);
    assert_eq!(amplify_target(WindowTileState::HalfFocalized, w(2), &leaves), Some(w(3)));
    assert_eq!(amplify_target(WindowTileState::Focalized, w(1), &leaves), None);
    assert_eq!(amplify_target(WindowTileState::Floating, w(1), &leaves), None);
    assert_eq!(amplify_target(WindowTileState::Normal, w(1), &vec![]), None);
}

#[test]
fn workspace_monitor_choice() {
    let s = |v: &str| Some(v.to_string());
    assert_eq!(workspace_monitor(s("B"), s("R"), s("L"), s("U")), (s("B"), false));
    assert_eq!(workspace_monitor(None, s("R"), s("L"), s("U")), (s("R"), true));
    assert_eq!(workspace_monitor(None, None, s("L"), s("U")), (s("L"), true));
    assert_eq!(workspace_monitor(None, None, None, s("U")), (s("U"), true));
    assert_eq!(workspace_monitor(None, None, None, None), (None, true));
}

#[test]
fn requested_monitor_name_is_upper_cased() {
    let s = |v: &str| Some(v.to_string());
    assert_eq!(workspace_monitor(None, s("monitor2"), s("L"), s("U")), (s("MONITOR2"), true));
    assert_eq!(workspace_monitor(s("monitor1"), s("monitor2"), None, None), (s("monitor1"), false));
}

use mondrian::focus::{monitor_focus_target, MonitorFocus};
use mondrian::focus_history::FocusHistory;

fn placed(id: isize, x: i32) -> AreaLeaf<WindowRef> {
    AreaLeaf { id: w(id), viewbox: Area::new(x, 0, 10, 10) }
}

#[test]
fn monitor_focus_choice() {
    let leaves = vec![placed(1, 0), placed(2, 10), placed(3, 20)];
    let edge = vec![placed(2, 10), placed(1, 0)];
    let mut h = FocusHistory::new();
    h.update(w(3));
    assert_eq!(monitor_focus_target(Some(w(9)), &h, true, &leaves, &edge), MonitorFocus::Window(w(9)));
    assert_eq!(monitor_focus_target(None, &h, true, &leaves, &edge), MonitorFocus::Window(w(3)));
    assert_eq!(monitor_focus_target(None, &h, false, &leaves, &edge), MonitorFocus::Window(w(2)));
    let fresh = FocusHistory::new();
    assert_eq!(monitor_focus_target(None, &fresh, true, &leaves, &edge), MonitorFocus::Window(w(2)));
    assert_eq!(monitor_focus_target(None, &fresh, true, &leaves, &vec![]), MonitorFocus::Monitor);
}
