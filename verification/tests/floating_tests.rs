use mondrian::floating::{
    find_containing_monitor, find_nearest_monitor, fit_area, floating_move, get_corrective_pad, FloatingMove,
    FloatingProperties, FloatingWindows, MIN_FLOATING_DIM,
};
use mondrian::geometry::{Area, Direction};
use mondrian::monitor::Monitor;
use mondrian::window::WindowRef;
use mondrian::window_map::WindowMap;

fn monitor(name: &str, offset: (i32, i32), size: (i32, i32)) -> Monitor {
    Monitor {
        handle: 0,
        id: name.to_string(),
        hw_id: String::new(),
        primary: false,
        resolution: size,
        workspace: size,
        offset,
    }
}

#[test]
fn corrective_pad_grows_small_dimensions() {
    assert_eq!(get_corrective_pad(250, 100), (-75, -75));
    assert_eq!(get_corrective_pad(250, 101), (-75, -74));
    assert_eq!(get_corrective_pad(250, 250), (0, 0));
    assert_eq!(get_corrective_pad(250, 400), (0, 0));
    assert_eq!(get_corrective_pad(MIN_FLOATING_DIM as i16, 0), (-125, -125));
}

#[test]
fn corrective_pad_brings_dimension_to_minimum() {
    for dim in [0i16, 1, 99, 100, 249] {
        let (a, b) = get_corrective_pad(250, dim);
        assert_eq!(dim - a - b, 250);
    }
}

#[test]
fn corrective_pad_caps_huge_gaps() {
    assert_eq!(get_corrective_pad(i16::MAX, i16::MIN), (-16384, -16383));
}

#[test]
fn fit_area_inside_destination() {
    let dest = Area::new(0, 0, 1000, 800);
    assert_eq!(fit_area(&Area::new(900, 700, 300, 300), &dest), Area::new(700, 500, 300, 300));
    assert_eq!(fit_area(&Area::new(-50, -50, 100, 100), &dest), Area::new(0, 0, 100, 100));
    assert_eq!(fit_area(&Area::new(100, 100, 2000, 100), &dest), Area::new(0, 100, 1000, 100));
    assert_eq!(fit_area(&Area::new(10, 10, 20, 20), &dest), Area::new(10, 10, 20, 20));
}

#[test]
fn containing_monitor_is_the_first_match() {
    let monitors = vec![
        monitor("A", (0, 0), (1920, 1080)),
        monitor("B", (1920, 0), (1280, 1024)),
    ];
    assert_eq!(find_containing_monitor(&monitors, (100, 100)), Some(0));
    assert_eq!(find_containing_monitor(&monitors, (2000, 100)), Some(1));
    assert_eq!(find_containing_monitor(&monitors, (1920, 0)), Some(0));
    assert_eq!(find_containing_monitor(&monitors, (5000, 0)), None);
}

#[test]
fn nearest_monitor_in_direction() {
    let monitors = vec![
        monitor("A", (0, 0), (1920, 1080)),
        monitor("B", (1920, 0), (1280, 1024)),
        monitor("C", (-1280, 0), (1280, 1024)),
    ];
    assert_eq!(find_nearest_monitor(&monitors, (960, 540), Direction::Right), Some(1));
    assert_eq!(find_nearest_monitor(&monitors, (960, 540), Direction::Left), Some(2));
    assert_eq!(find_nearest_monitor(&monitors, (960, 540), Direction::Up), None);
}

#[test]
fn monitor_workspace_area() {
    let m = monitor("A", (100, 200), (1920, 1040));
    assert_eq!(m.get_workspace(), Area::new(100, 200, 1920, 1040));
    let c = m.clone();
    assert_eq!(c.id, "A");
}

#[test]
fn floating_windows_properties() {
    let mut wins: WindowMap<FloatingProperties> = WindowMap::new();
    let a = WindowRef::new(1);
    let b = WindowRef::new(2);
    let c = WindowRef::new(3);
    wins.insert(a, FloatingProperties::new());
    wins.insert(b, FloatingProperties::new());
    assert_eq!(wins.locked(&a), Some(false));
    assert_eq!(wins.locked(&c), None);
    wins.set_minimized(&b, true);
    assert_eq!(wins.enabled_keys(), vec![a]);
    assert!(!wins.can_be_closed(&b));
    assert!(wins.can_be_closed(&a));
    assert!(wins.can_be_closed(&c));
    wins.set_locked(&a, true);
    assert!(!wins.can_be_closed(&a));
    wins.set_all_locked(false);
    assert_eq!(wins.locked(&a), Some(false));
    wins.set_properties(&b, false, true);
    assert_eq!(wins.get(&b), Some(FloatingProperties { minimized: false, locked: true }));
    wins.set_properties(&c, true, true);
    assert_eq!(wins.get(&c), None);
    let mut keys = wins.enabled_keys();
    keys.sort_by_key(|w| w.hwnd);
    assert_eq!(keys, vec![a, b]);
}

#[test]
fn floating_move_goes_across_near_the_edge_else_moves_within() {
    let monitor = Area::new(0, 0, 1920, 1080);
    assert_eq!(
        floating_move(&Area::new(5, 100, 400, 300), &monitor, Direction::Left, 50),
        FloatingMove::InsertAcross
    );
    assert_eq!(
        floating_move(&Area::new(500, 200, 400, 300), &monitor, Direction::Right, 50),
        FloatingMove::MoveTo(Area::new(550, 200, 400, 300))
    );
    // Moved past the right edge, the window is kept within the monitor.
    assert_eq!(
        floating_move(&Area::new(1500, 200, 400, 300), &monitor, Direction::Right, 100),
        FloatingMove::MoveTo(Area::new(1520, 200, 400, 300))
    );
    assert_eq!(
        floating_move(&Area::new(500, 500, 400, 300), &monitor, Direction::Up, 60000),
        FloatingMove::MoveTo(Area::new(500, 0, 400, 300))
    );
}
