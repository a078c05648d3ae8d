use mondrian::focus_history::{FocusHistory, MAX_ENTRIES};
use mondrian::window::WindowRef;

#[test]
fn new_history_knows_no_window() {
    let h = FocusHistory::new();
    assert_eq!(h.value(WindowRef::new(1)), None);
}

#[test]
fn latest_focus_has_the_highest_stamp() {
    let mut h = FocusHistory::new();
    let a = WindowRef::new(1);
    let b = WindowRef::new(2);
    let c = WindowRef::new(3);
    h.update(a);
    h.update(b);
    h.update(c);
    assert_eq!(h.value(a), Some(1));
    assert_eq!(h.value(b), Some(2));
    assert_eq!(h.value(c), Some(3));
    h.update(a);
    assert_eq!(h.value(a), Some(4));
    assert!(h.value(a) > h.value(c));
    assert!(h.value(c) > h.value(b));
}

#[test]
fn oldest_window_is_forgotten_past_the_limit() {
    let mut h = FocusHistory::new();
    for i in 0..(MAX_ENTRIES as isize + 1) {
        h.update(WindowRef::new(i + 1));
    }
    assert_eq!(h.value(WindowRef::new(1)), None);
    assert_eq!(h.value(WindowRef::new(2)), Some(2));
    assert_eq!(h.value(WindowRef::new(MAX_ENTRIES as isize + 1)), Some(MAX_ENTRIES as u64 + 1));
}

use mondrian::geometry::Area;
use mondrian::utils::AreaLeaf;

fn leaf(id: isize) -> AreaLeaf<WindowRef> {
    AreaLeaf { id: WindowRef::new(id), viewbox: Area::new(0, 0, 1, 1) }
}

#[test]
fn latest_of_leaves() {
    let mut h = FocusHistory::new();
    h.update(WindowRef::new(1));
    h.update(WindowRef::new(2));
    h.update(WindowRef::new(3));
    h.update(WindowRef::new(1));
    let leaves = vec![leaf(2), leaf(1), leaf(9)];
    assert_eq!(h.latest(&leaves).map(|l| l.id), Some(WindowRef::new(1)));
    let leaves = vec![leaf(2), leaf(3)];
    assert_eq!(h.latest(&leaves).map(|l| l.id), Some(WindowRef::new(3)));
    assert_eq!(h.latest(&vec![leaf(8), leaf(9)]), None);
    assert_eq!(h.latest(&vec![]), None);
}
