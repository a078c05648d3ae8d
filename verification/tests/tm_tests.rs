use mondrian::containers::ContainerLayer;
use mondrian::geometry::{Area, Direction};
use mondrian::result::TilesManagerError;
use mondrian::tm::{
    cycle_target, first_index, focalize_action, focused_resize_padding, half_focalize_action,
    half_focalize_selection, move_action, neighbour_search, resize_directions, resize_steps,
    window_tile_state, FocalizeAction, IntermonitorMoveOp, IntramonitorMoveOp, MonitorSearchStrategy,
    MoveAction, NeighbourSearch, ResizeStep, WindowTileState,
};
use mondrian::utils::AreaLeaf;
use mondrian::window::WindowRef;

fn w(h: isize) -> WindowRef {
    WindowRef::new(h)
}

#[test]
fn tile_state_precedence() {
    assert_eq!(window_tile_state(w(1), true, true, None), Ok(WindowTileState::Floating));
    assert_eq!(window_tile_state(w(1), false, true, Some(ContainerLayer::Normal)), Ok(WindowTileState::Maximized));
    assert_eq!(window_tile_state(w(1), false, false, Some(ContainerLayer::Focalized)), Ok(WindowTileState::Focalized));
    assert_eq!(
        window_tile_state(w(1), false, false, Some(ContainerLayer::HalfFocalized)),
        Ok(WindowTileState::HalfFocalized)
    );
    assert_eq!(window_tile_state(w(1), false, false, Some(ContainerLayer::Normal)), Ok(WindowTileState::Normal));
    assert_eq!(window_tile_state(w(1), false, false, None), Err(TilesManagerError::WinNotManaged(w(1))));
}

#[test]
fn neighbour_search_strategies() {
    assert_eq!(neighbour_search(ContainerLayer::Focalized, false, MonitorSearchStrategy::Same), NeighbourSearch::Skip);
    assert_eq!(neighbour_search(ContainerLayer::Normal, true, MonitorSearchStrategy::Same), NeighbourSearch::Skip);
    assert_eq!(neighbour_search(ContainerLayer::Normal, false, MonitorSearchStrategy::Same), NeighbourSearch::SameMonitor);
    assert_eq!(neighbour_search(ContainerLayer::Focalized, true, MonitorSearchStrategy::Any), NeighbourSearch::ClosestMonitor);
    assert_eq!(
        neighbour_search(ContainerLayer::Focalized, false, MonitorSearchStrategy::Any),
        NeighbourSearch::SameThenClosestMonitor
    );
}

#[test]
fn resize_directions_from_delta() {
    assert_eq!(resize_directions((-50, 0, 50, 0)), (Some(Direction::Left), None));
    assert_eq!(resize_directions((0, 0, 50, -30)), (Some(Direction::Right), Some(Direction::Down)));
    assert_eq!(resize_directions((0, 11, 0, 5)), (None, Some(Direction::Up)));
    assert_eq!(resize_directions((10, -10, 1, 1)), (Some(Direction::Right), Some(Direction::Down)));
    assert_eq!(resize_directions((0, 0, 0, 0)), (None, None));
}

#[test]
fn resize_steps_from_center_past_the_moved_side() {
    let area = Area::new(100, 100, 200, 100);
    assert_eq!(
        resize_steps((-50, 0, 50, 0), area, true, true),
        vec![ResizeStep { from: (200, 150), to: (80, 150), growth: -50 }]
    );
    assert_eq!(
        resize_steps((0, 0, 30, 40), area, true, true),
        vec![
            ResizeStep { from: (200, 150), to: (320, 150), growth: 30 },
            ResizeStep { from: (200, 150), to: (200, 220), growth: 40 },
        ]
    );
    assert_eq!(resize_steps((0, 0, 30, 40), area, false, false), vec![]);
    assert_eq!(
        resize_steps((0, -20, 0, 20), area, false, true),
        vec![ResizeStep { from: (200, 150), to: (200, 80), growth: -20 }]
    );
}

#[test]
fn focused_resize_padding_by_neighbours() {
    assert_eq!(focused_resize_padding(Direction::Left, 40, true, true), ((40, 0), (0, 0)));
    assert_eq!(focused_resize_padding(Direction::Left, 40, false, true), ((0, -40), (0, 0)));
    assert_eq!(focused_resize_padding(Direction::Right, 40, true, false), ((0, 40), (0, 0)));
    assert_eq!(focused_resize_padding(Direction::Up, 40, false, false), ((0, 0), (0, 0)));
    assert_eq!(focused_resize_padding(Direction::Down, 900, false, true), ((0, 0), (-500, 0)));
}

#[test]
fn move_action_within_and_across_monitors() {
    assert_eq!(move_action(true, true, IntramonitorMoveOp::Swap, IntermonitorMoveOp::Insert), (MoveAction::Swap, false));
    assert_eq!(move_action(true, false, IntramonitorMoveOp::Swap, IntermonitorMoveOp::Insert), (MoveAction::Nothing, false));
    assert_eq!(move_action(true, true, IntramonitorMoveOp::Invert, IntermonitorMoveOp::Insert), (MoveAction::Swap, true));
    assert_eq!(
        move_action(true, true, IntramonitorMoveOp::InsertFreeMove, IntermonitorMoveOp::Insert),
        (MoveAction::MoveTo, false)
    );
    assert_eq!(
        move_action(false, true, IntramonitorMoveOp::Swap, IntermonitorMoveOp::Swap),
        (MoveAction::Swap, false)
    );
    assert_eq!(
        move_action(false, false, IntramonitorMoveOp::Swap, IntermonitorMoveOp::Swap),
        (MoveAction::Insert { free_move: false }, false)
    );
    assert_eq!(
        move_action(false, true, IntramonitorMoveOp::Swap, IntermonitorMoveOp::InsertFreeMove),
        (MoveAction::Insert { free_move: true }, false)
    );
    assert_eq!(
        move_action(false, true, IntramonitorMoveOp::Swap, IntermonitorMoveOp::Invert),
        (MoveAction::Insert { free_move: false }, true)
    );
}

#[test]
fn focalize_actions() {
    assert_eq!(focalize_action(None, ContainerLayer::Normal), FocalizeAction::Focalize);
    assert_eq!(focalize_action(None, ContainerLayer::HalfFocalized), FocalizeAction::Focalize);
    assert_eq!(focalize_action(None, ContainerLayer::Focalized), FocalizeAction::Restore);
    assert_eq!(focalize_action(Some(true), ContainerLayer::Focalized), FocalizeAction::Focalize);
    assert_eq!(focalize_action(Some(false), ContainerLayer::Normal), FocalizeAction::Restore);
    assert_eq!(half_focalize_action(None, ContainerLayer::Normal), FocalizeAction::Focalize);
    assert_eq!(half_focalize_action(None, ContainerLayer::HalfFocalized), FocalizeAction::Restore);
    assert_eq!(half_focalize_action(None, ContainerLayer::Focalized), FocalizeAction::NoChange);
    assert_eq!(half_focalize_action(Some(false), ContainerLayer::Focalized), FocalizeAction::Restore);
}

#[test]
fn first_index_of_window() {
    let v = vec![w(3), w(1), w(3)];
    assert_eq!(first_index(&v, w(3)), Some(0));
    assert_eq!(first_index(&v, w(1)), Some(1));
    assert_eq!(first_index(&v, w(9)), None);
}

#[test]
fn cycle_focalized_windows() {
    let normal = vec![w(1), w(2), w(3)];
    let current = vec![w(2)];
    assert_eq!(
        cycle_target(ContainerLayer::Focalized, None, &current, &normal, w(2), true),
        Ok(Some((w(2), w(3))))
    );
    assert_eq!(
        cycle_target(ContainerLayer::Focalized, None, &current, &normal, w(2), false),
        Ok(Some((w(2), w(1))))
    );
    let current = vec![w(3)];
    assert_eq!(
        cycle_target(ContainerLayer::Focalized, Some(false), &current, &normal, w(3), true),
        Ok(Some((w(3), w(1))))
    );
    let current = vec![w(1)];
    assert_eq!(
        cycle_target(ContainerLayer::Focalized, None, &current, &normal, w(1), false),
        Ok(Some((w(1), w(3))))
    );
}

#[test]
fn cycle_half_focalized_skips_the_window_beside() {
    let normal = vec![w(1), w(2), w(3), w(4)];
    let current = vec![w(2), w(3)];
    assert_eq!(
        cycle_target(ContainerLayer::HalfFocalized, Some(true), &current, &normal, w(2), true),
        Ok(Some((w(2), w(4))))
    );
    assert_eq!(
        cycle_target(ContainerLayer::HalfFocalized, None, &current, &normal, w(2), false),
        Ok(Some((w(2), w(1))))
    );
}

#[test]
fn cycle_does_nothing_on_other_layers_or_shapes() {
    let normal = vec![w(1), w(2)];
    assert_eq!(cycle_target(ContainerLayer::Normal, None, &vec![w(1)], &normal, w(1), true), Ok(None));
    assert_eq!(cycle_target(ContainerLayer::Focalized, Some(true), &vec![w(1)], &normal, w(1), true), Ok(None));
    assert_eq!(cycle_target(ContainerLayer::Focalized, None, &vec![w(1), w(2)], &normal, w(1), true), Ok(None));
    assert_eq!(cycle_target(ContainerLayer::Focalized, None, &vec![w(2)], &normal, w(1), true), Ok(None));
    assert_eq!(cycle_target(ContainerLayer::Focalized, None, &vec![w(1)], &vec![w(1)], w(1), true), Ok(None));
}

#[test]
fn cycle_fails_for_a_window_outside_the_normal_layer() {
    let normal = vec![w(1), w(2)];
    assert_eq!(
        cycle_target(ContainerLayer::Focalized, None, &vec![w(7)], &normal, w(7), true),
        Err(TilesManagerError::Generic)
    );
}

fn leaf(id: isize, width: u16, height: u16) -> AreaLeaf<WindowRef> {
    AreaLeaf { id: w(id), viewbox: Area::new(0, 0, width, height) }
}

#[test]
fn half_focalize_keeps_the_biggest_other_leaf() {
    let leaves = vec![leaf(1, 10, 10), leaf(2, 50, 50), leaf(3, 30, 30), leaf(4, 20, 20)];
    let (kept, removed) = half_focalize_selection(&leaves, w(1)).unwrap();
    assert_eq!(kept.id, w(2));
    assert_eq!(removed.iter().map(|l| l.id).collect::<Vec<_>>(), vec![w(4), w(3)]);
    let (kept, removed) = half_focalize_selection(&leaves, w(2)).unwrap();
    assert_eq!(kept.id, w(3));
    assert_eq!(removed.iter().map(|l| l.id).collect::<Vec<_>>(), vec![w(1), w(4)]);
    assert!(half_focalize_selection(&vec![leaf(1, 1, 1)], w(1)).is_none());
}

#[test]
fn cycle_forward_then_back_returns() {
    let normal = vec![w(1), w(2), w(3), w(4)];
    let current = vec![w(4), w(2)];
    let (f, g) = cycle_target(ContainerLayer::HalfFocalized, None, &current, &normal, w(4), true)
        .unwrap()
        .unwrap();
    assert_eq!((f, g), (w(4), w(1)));
    let current2 = vec![g, w(2)];
    assert_eq!(
        cycle_target(ContainerLayer::HalfFocalized, None, &current2, &normal, g, false),
        Ok(Some((w(1), w(4))))
    );
}

use mondrian::tm::{maximize_action, release_action, remove_plan, MaximizeAction, ReleaseAction, RemovePlan};

#[test]
fn release_toggles_floating() {
    assert_eq!(release_action(WindowTileState::Normal, None), ReleaseAction::Float);
    assert_eq!(release_action(WindowTileState::Floating, None), ReleaseAction::Tile);
    assert_eq!(release_action(WindowTileState::Floating, Some(true)), ReleaseAction::Float);
    assert_eq!(release_action(WindowTileState::Focalized, Some(false)), ReleaseAction::Tile);
    assert_eq!(release_action(WindowTileState::Maximized, Some(true)), ReleaseAction::NoChange);
}

#[test]
fn remove_plans_by_state() {
    assert_eq!(
        remove_plan(WindowTileState::Floating),
        RemovePlan { floating: true, restore_monitor: false, forget_maximized: false }
    );
    assert_eq!(
        remove_plan(WindowTileState::HalfFocalized),
        RemovePlan { floating: false, restore_monitor: true, forget_maximized: false }
    );
    assert_eq!(
        remove_plan(WindowTileState::Maximized),
        RemovePlan { floating: false, restore_monitor: false, forget_maximized: true }
    );
    assert_eq!(
        remove_plan(WindowTileState::Normal),
        RemovePlan { floating: false, restore_monitor: false, forget_maximized: false }
    );
}

#[test]
fn maximize_actions() {
    assert_eq!(maximize_action(WindowTileState::Floating, true, false), MaximizeAction::NoChange);
    assert_eq!(maximize_action(WindowTileState::Normal, true, true), MaximizeAction::Maximize { moved: false });
    assert_eq!(maximize_action(WindowTileState::Normal, true, false), MaximizeAction::Maximize { moved: true });
    assert_eq!(maximize_action(WindowTileState::Maximized, false, true), MaximizeAction::Restore);
}

#[test]
fn cycling_goes_round_a_large_layer() {
    let normal: Vec<WindowRef> = (0..200).map(|h| w(h)).collect();
    let current = vec![w(150)];
    assert_eq!(
        cycle_target(ContainerLayer::Focalized, None, &current, &normal, w(150), true),
        Ok(Some((w(150), w(151))))
    );
    let current = vec![w(199)];
    assert_eq!(
        cycle_target(ContainerLayer::Focalized, None, &current, &normal, w(199), true),
        Ok(Some((w(199), w(0))))
    );
}
