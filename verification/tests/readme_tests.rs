use mondrian::focus::best_matching_leaf;
use mondrian::focus_history::FocusHistory;
use mondrian::geometry::{Area, Direction};
use mondrian::tm::{move_ops, IntermonitorMoveOp as Inter, IntramonitorMoveOp as Intra};
use mondrian::utils::{leaves_limited_by_edge, AreaLeaf};
use mondrian::window::WindowRef;

// (alt, ctrl, shift)
const NO_KEY: (bool, bool, bool) = (false, false, false);
const CTRL: (bool, bool, bool) = (false, true, false);
const SHIFT: (bool, bool, bool) = (false, false, true);
const ALT: (bool, bool, bool) = (true, false, false);

fn inter(insert: bool, free: bool, keys: (bool, bool, bool)) -> Inter {
    move_ops(insert, free, keys.0, keys.1, keys.2).1
}

fn intra(keys: (bool, bool, bool)) -> Intra {
    move_ops(true, false, keys.0, keys.1, keys.2).0
}

#[test]
fn readme_table_insert_off() {
    for free in [false, true] {
        assert_eq!(inter(false, free, NO_KEY), Inter::Swap);
        assert_eq!(inter(false, free, CTRL), Inter::InsertFreeMove);
        assert_eq!(inter(false, free, SHIFT), Inter::Insert);
        assert_eq!(inter(false, free, ALT), Inter::Invert);
    }
}

#[test]
fn readme_table_insert_on_free_off() {
    assert_eq!(inter(true, false, NO_KEY), Inter::Insert);
    assert_eq!(inter(true, false, CTRL), Inter::InsertFreeMove);
    assert_eq!(inter(true, false, SHIFT), Inter::Swap);
    assert_eq!(inter(true, false, ALT), Inter::Invert);
}

#[test]
fn readme_table_insert_on_free_on() {
    assert_eq!(inter(true, true, NO_KEY), Inter::InsertFreeMove);
    assert_eq!(inter(true, true, CTRL), Inter::Insert);
    assert_eq!(inter(true, true, SHIFT), Inter::Swap);
    assert_eq!(inter(true, true, ALT), Inter::Invert);
}

#[test]
fn readme_moves_within_a_monitor() {
    assert_eq!(intra(NO_KEY), Intra::Swap);
    assert_eq!(intra(ALT), Intra::Invert);
    assert_eq!(intra(CTRL), Intra::InsertFreeMove);
    assert_eq!(intra(SHIFT), Intra::Swap);
}

#[test]
fn readme_modifier_precedence() {
    assert_eq!(move_ops(true, false, true, true, true), (Intra::Invert, Inter::Invert));
    assert_eq!(move_ops(true, false, false, true, true), (Intra::InsertFreeMove, Inter::InsertFreeMove));
    assert_eq!(move_ops(false, false, false, true, true), (Intra::InsertFreeMove, Inter::InsertFreeMove));
}

fn leaf(id: isize, x: i32, y: i32, w: u16, h: u16) -> AreaLeaf<WindowRef> {
    AreaLeaf { id: WindowRef::new(id), viewbox: Area::new(x, y, w, h) }
}

#[test]
fn readme_focus_right_from_b_picks_the_top_window() {
    // A and B on the left, C, D and E stacked on the right.
    let a = leaf(1, 0, 0, 100, 150);
    let b = leaf(2, 0, 150, 100, 150);
    let c = leaf(3, 100, 0, 100, 75);
    let d = leaf(4, 100, 75, 100, 150);
    let e = leaf(5, 100, 225, 100, 75);
    let edge = b.viewbox.get_corners(Direction::Right);
    let candidates = leaves_limited_by_edge(&[a, c, d, e], Direction::Right, edge);
    assert_eq!(candidates, vec![d, e]);
    assert_eq!(candidates.first().map(|l| l.id), Some(WindowRef::new(4)));
}

fn faq_layout() -> (Vec<AreaLeaf<WindowRef>>, AreaLeaf<WindowRef>) {
    let a = leaf(1, 0, 0, 100, 150);
    let b = leaf(2, 0, 150, 100, 150);
    let c = leaf(3, 100, 0, 100, 75);
    let d = leaf(4, 100, 75, 100, 150);
    let e = leaf(5, 100, 225, 100, 75);
    (vec![a, b, c, d, e], b)
}

#[test]
fn readme_focus_right_without_history_picks_d() {
    let (leaves, b) = faq_layout();
    let edge = b.viewbox.get_corners(Direction::Right);
    let candidates = leaves_limited_by_edge(&leaves, Direction::Right, edge);
    let mut h = FocusHistory::new();
    h.update(WindowRef::new(5));
    let chosen = best_matching_leaf(&h, false, b.id, &candidates);
    assert_eq!(chosen.map(|l| l.id), Some(WindowRef::new(4)));
}

#[test]
fn readme_focus_right_with_history_picks_recent_e() {
    let (leaves, b) = faq_layout();
    let edge = b.viewbox.get_corners(Direction::Right);
    let candidates = leaves_limited_by_edge(&leaves, Direction::Right, edge);
    let mut h = FocusHistory::new();
    h.update(WindowRef::new(4));
    h.update(WindowRef::new(5));
    h.update(WindowRef::new(2));
    let chosen = best_matching_leaf(&h, true, b.id, &candidates);
    assert_eq!(chosen.map(|l| l.id), Some(WindowRef::new(5)));
    let fresh = FocusHistory::new();
    let chosen = best_matching_leaf(&fresh, true, b.id, &candidates);
    assert_eq!(chosen.map(|l| l.id), Some(WindowRef::new(4)));
}
