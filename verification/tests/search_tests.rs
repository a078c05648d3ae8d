use mondrian::geometry::{Area, Direction};
use mondrian::result::TilesManagerError;
use mondrian::search::{calc_distance, find_at, find_at_or_near, find_closest_at};
use mondrian::utils::{find_nearest_candidate, leaves_limited_by_edge, sort_leaves, AreaLeaf, LeafOrder};
use mondrian::window::WindowRef;

fn monitors() -> Vec<(&'static str, Area)> {
    vec![
        ("A", Area::new(0, 0, 100, 100)),
        ("B", Area::new(100, 0, 100, 100)),
        ("C", Area::new(0, 200, 100, 100)),
    ]
}

#[test]
fn distance_to_area() {
    let a = Area::new(0, 0, 100, 100);
    assert_eq!(calc_distance((50, 50), a), 0);
    assert_eq!(calc_distance((103, 104), a), 9 + 16);
    assert_eq!(calc_distance((-10, 50), a), 100);
}

#[test]
fn find_at_first_container() {
    let c = monitors();
    let e = find_at(&c, (100, 50)).unwrap();
    assert_eq!(*e.key, "A");
    let e = find_at(&c, (150, 50)).unwrap();
    assert_eq!(*e.key, "B");
    assert_eq!(find_at(&c, (50, 150)).err(), Some(TilesManagerError::NoContainerAtPoint((50, 150))));
}

#[test]
fn find_at_or_near_closest_container() {
    let c = monitors();
    let e = find_at_or_near(&c, (50, 180)).unwrap();
    assert_eq!(*e.key, "C");
    let e = find_at_or_near(&c, (150, 120)).unwrap();
    assert_eq!(*e.key, "B");
    let empty: Vec<(&str, Area)> = vec![];
    assert_eq!(find_at_or_near(&empty, (1, 1)).err(), Some(TilesManagerError::NoContainerAtPoint((1, 1))));
}

#[test]
fn find_closest_in_direction() {
    let c = monitors();
    let e = find_closest_at(&c, (50, 50), Direction::Right).unwrap();
    assert_eq!(*e.key, "B");
    let e = find_closest_at(&c, (50, 50), Direction::Down).unwrap();
    assert_eq!(*e.key, "C");
    assert_eq!(
        find_closest_at(&c, (50, 50), Direction::Left).err(),
        Some(TilesManagerError::NoContainerAtPoint((0, 100)))
    );
    assert_eq!(
        find_closest_at(&c, (500, 500), Direction::Left).err(),
        Some(TilesManagerError::NoContainerAtPoint((500, 500)))
    );
}

fn leaf(id: isize, x: i32, y: i32, w: u16, h: u16) -> AreaLeaf<WindowRef> {
    AreaLeaf { id: WindowRef::new(id), viewbox: Area::new(x, y, w, h) }
}

#[test]
fn sort_leaves_is_stable() {
    let leaves = vec![leaf(1, 0, 30, 10, 10), leaf(2, 5, 10, 10, 10), leaf(3, 0, 10, 20, 20), leaf(4, 9, 0, 1, 1)];
    let by_top: Vec<isize> = sort_leaves(&leaves, LeafOrder::ByTop).iter().map(|l| l.id.hwnd).collect();
    assert_eq!(by_top, vec![4, 2, 3, 1]);
    let by_left: Vec<isize> = sort_leaves(&leaves, LeafOrder::ByLeft).iter().map(|l| l.id.hwnd).collect();
    assert_eq!(by_left, vec![1, 3, 2, 4]);
    let by_surface: Vec<isize> = sort_leaves(&leaves, LeafOrder::BySurface).iter().map(|l| l.id.hwnd).collect();
    assert_eq!(by_surface, vec![4, 1, 2, 3]);
}

#[test]
fn nearest_candidate_prefers_those_beyond_the_edge() {
    let src = Area::new(100, 100, 100, 100);
    let candidates = vec![
        (1, Area::new(0, 0, 50, 50)),
        (2, Area::new(300, 100, 100, 100)),
        (3, Area::new(210, 300, 10, 10)),
    ];
    assert_eq!(find_nearest_candidate(&src, Direction::Right, &candidates), Some((3, Area::new(210, 300, 10, 10))));
    assert_eq!(find_nearest_candidate(&src, Direction::Left, &candidates), Some((1, Area::new(0, 0, 50, 50))));
    assert_eq!(find_nearest_candidate(&src, Direction::Up, &candidates), Some((1, Area::new(0, 0, 50, 50))));
    let only_right = vec![(2, Area::new(300, 100, 100, 100))];
    assert_eq!(find_nearest_candidate(&src, Direction::Left, &only_right), Some((2, Area::new(300, 100, 100, 100))));
    let none: Vec<(u8, Area)> = vec![];
    assert_eq!(find_nearest_candidate(&src, Direction::Left, &none), None);
}

#[test]
fn leaves_along_an_edge() {
    let leaves = vec![
        leaf(1, 100, 50, 100, 50),
        leaf(2, 100, 0, 100, 50),
        leaf(3, 300, 0, 100, 100),
        leaf(4, 100, 100, 100, 100),
    ];
    let edge = [(100, 0), (100, 100)];
    let ids: Vec<isize> = leaves_limited_by_edge(&leaves, Direction::Right, edge).iter().map(|l| l.id.hwnd).collect();
    assert_eq!(ids, vec![2, 1]);
}
