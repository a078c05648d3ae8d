use mondrian::geometry::{distance, Area, Direction, Orientation};

#[test]
fn area_edges_and_center() {
    let a = Area::new(10, 20, 100, 50);
    assert_eq!(a.get_right_edge(), 110);
    assert_eq!(a.get_bottom_edge(), 70);
    assert_eq!(a.get_center(), (60, 45));
    assert_eq!(a.get_edge(Direction::Left), 10);
    assert_eq!(a.get_edge(Direction::Right), 110);
    assert_eq!(a.get_edge(Direction::Up), 20);
    assert_eq!(a.get_edge(Direction::Down), 70);
}

#[test]
fn area_center_rounds_down_odd_sizes() {
    let a = Area::new(0, 0, 5, 3);
    assert_eq!(a.get_center(), (2, 1));
}

#[test]
fn area_corners() {
    let a = Area::new(0, 0, 100, 50);
    assert_eq!(a.get_nw_corner(), (0, 0));
    assert_eq!(a.get_ne_corner(), (100, 0));
    assert_eq!(a.get_se_corner(), (100, 50));
    assert_eq!(a.get_sw_corner(), (0, 50));
    assert_eq!(a.get_corners(Direction::Left), [(0, 0), (0, 50)]);
    assert_eq!(a.get_corners(Direction::Right), [(100, 0), (100, 50)]);
    assert_eq!(a.get_corners(Direction::Up), [(0, 0), (100, 0)]);
    assert_eq!(a.get_corners(Direction::Down), [(0, 50), (100, 50)]);
}

#[test]
fn area_center_in_direction() {
    let a = Area::new(0, 0, 100, 50);
    assert_eq!(a.get_center_in_direction(Direction::Left), (0, 25));
    assert_eq!(a.get_center_in_direction(Direction::Right), (100, 25));
    assert_eq!(a.get_center_in_direction(Direction::Up), (50, 0));
    assert_eq!(a.get_center_in_direction(Direction::Down), (50, 50));
}

#[test]
fn area_contains_borders() {
    let a = Area::new(0, 0, 100, 50);
    assert!(a.contains((0, 0)));
    assert!(a.contains((100, 50)));
    assert!(!a.contains((101, 10)));
    assert!(!a.contains((10, -1)));
    assert!(a.contains_x(100));
    assert!(!a.contains_x(101));
    assert!(a.contains_y(0));
    assert!(!a.contains_y(51));
}

#[test]
fn area_overlaps_open_ranges() {
    let a = Area::new(0, 0, 100, 50);
    assert!(a.overlaps_x(50, 150));
    assert!(!a.overlaps_x(100, 150));
    assert!(!a.overlaps_x(-50, 0));
    assert!(a.overlaps_y(-10, 1));
    assert!(!a.overlaps_y(50, 60));
}

#[test]
fn area_shift_and_surface() {
    let a = Area::new(10, 10, 100, 50);
    assert_eq!(a.shift((1, -2, 3, -4)), Area::new(11, 8, 103, 46));
    assert_eq!(a.calc_area(), 5000);
    assert_eq!(Area::new(0, 0, 65535, 65535).calc_area(), 4294836225);
}

#[test]
fn direction_opposite_and_axis() {
    assert_eq!(Direction::Left.opposite(), Direction::Right);
    assert_eq!(Direction::Right.opposite(), Direction::Left);
    assert_eq!(Direction::Up.opposite(), Direction::Down);
    assert_eq!(Direction::Down.opposite(), Direction::Up);
    assert_eq!(Direction::Left.axis(), Orientation::Horizontal);
    assert_eq!(Direction::Down.axis(), Orientation::Vertical);
}

#[test]
fn squared_distance() {
    assert_eq!(distance((0, 0), (3, 4)), 25);
    assert_eq!(distance((3, 4), (0, 0)), 25);
    assert_eq!(distance((i32::MIN, i32::MIN), (i32::MAX, i32::MAX)), 2 * (u32::MAX as u128) * (u32::MAX as u128));
}
