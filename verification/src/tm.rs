use vstd::prelude::*;

use crate::containers::ContainerLayer;
use crate::geometry::{Area, Direction};
use crate::result::TilesManagerError;
use crate::utils::{AreaLeaf, LeafOrder, sort_leaves, sorted_by_key, same_per_key};
use crate::window::WindowRef;

verus! {

/// How a managed window is shown.
#[derive(Debug, Clone, Copy, PartialEq, Eq, Hash, Structural)]
pub enum WindowTileState {
    Normal,
    Focalized,
    HalfFocalized,
    Maximized,
    Floating,
}

/// The state of `window` given whether it floats, whether it is maximized
/// and the layer of the active container holding it: a floating window
/// (even a minimized one) is floating, then a maximized one is maximized,
/// else it has the state of its container's layer, and a window in no
/// active container is not managed.
pub fn window_tile_state(
    window: WindowRef,
    is_floating: bool,
    is_maximized: bool,
    layer: Option<ContainerLayer>,
) -> (r: Result<WindowTileState, TilesManagerError>)
    ensures
        r == (if is_floating {
            Ok(WindowTileState::Floating)
        } else if is_maximized {
            Ok(WindowTileState::Maximized)
        } else {
            match layer {
                Some(ContainerLayer::Focalized) => Ok(WindowTileState::Focalized),
                Some(ContainerLayer::HalfFocalized) => Ok(WindowTileState::HalfFocalized),
                Some(ContainerLayer::Normal) => Ok(WindowTileState::Normal),
                None => Err(TilesManagerError::WinNotManaged(window)),
            }
        }),
{
    if is_floating {
        return Ok(WindowTileState::Floating);
    }
    if is_maximized {
        return Ok(WindowTileState::Maximized);
    }
    match layer {
        Some(ContainerLayer::Focalized) => Ok(WindowTileState::Focalized),
        Some(ContainerLayer::HalfFocalized) => Ok(WindowTileState::HalfFocalized),
        Some(ContainerLayer::Normal) => Ok(WindowTileState::Normal),
        None => Err(TilesManagerError::WinNotManaged(window)),
    }
}

/// What releasing a window does: a window is floated or tiled again.
#[derive(Debug, Clone, Copy, PartialEq, Eq, Structural)]
pub enum ReleaseAction {
    /// Maximized windows are left as they are.
    NoChange,
    /// The window leaves its tree and floats.
    Float,
    /// The window stops floating and is added to a tree again.
    Tile,
}

/// What releasing a window in `state` does: `release` forces floating or
/// tiling; toggled when `None`, a floating window is tiled and any other
/// floated. Maximized windows are not released.
pub fn release_action(state: WindowTileState, release: Option<bool>) -> (r: ReleaseAction)
    ensures
        r == (if state == WindowTileState::Maximized {
            ReleaseAction::NoChange
        } else if (match release {
            Some(b) => b,
            None => state != WindowTileState::Floating,
        }) {
            ReleaseAction::Float
        } else {
            ReleaseAction::Tile
        }),
{
    if matches!(state, WindowTileState::Maximized) {
        return ReleaseAction::NoChange;
    }
    let float = match release {
        Some(b) => b,
        None => !matches!(state, WindowTileState::Floating),
    };
    if float {
        ReleaseAction::Float
    } else {
        ReleaseAction::Tile
    }
}

/// How a window in a given state leaves the tiles manager.
#[derive(Debug, Clone, Copy, PartialEq, Eq, Structural)]
pub struct RemovePlan {
    /// The window floats: it is forgotten only if it can be closed, and
    /// nothing else changes.
    pub floating: bool,
    /// Its monitor shows a focalized layer, restored first.
    pub restore_monitor: bool,
    /// It is maximized, and no longer counted as such.
    pub forget_maximized: bool,
}

/// How removing a window in `state` goes.
pub fn remove_plan(state: WindowTileState) -> (p: RemovePlan)
    ensures
        p.floating == (state == WindowTileState::Floating),
        p.restore_monitor == (state == WindowTileState::Focalized || state
            == WindowTileState::HalfFocalized),
        p.forget_maximized == (state == WindowTileState::Maximized),
{
    RemovePlan {
        floating: matches!(state, WindowTileState::Floating),
        restore_monitor: matches!(state, WindowTileState::Focalized | WindowTileState::HalfFocalized),
        forget_maximized: matches!(state, WindowTileState::Maximized),
    }
}

/// What maximizing or restoring a window does.
#[derive(Debug, Clone, Copy, PartialEq, Eq, Structural)]
pub enum MaximizeAction {
    /// Floating windows are left as they are.
    NoChange,
    /// The window counts as maximized, moved first to the container of the
    /// monitor it was maximized on when that is another one (`moved`).
    Maximize { moved: bool },
    /// The window no longer counts as maximized.
    Restore,
}

/// What `maximized` does to a window in `state`, whose container and the
/// container nearest to its center are the same or not.
pub fn maximize_action(state: WindowTileState, maximized: bool, same_container: bool) -> (r: MaximizeAction)
    ensures
        r == (if state == WindowTileState::Floating {
            MaximizeAction::NoChange
        } else if maximized {
            MaximizeAction::Maximize { moved: !same_container }
        } else {
            MaximizeAction::Restore
        }),
{
    if matches!(state, WindowTileState::Floating) {
        MaximizeAction::NoChange
    } else if maximized {
        MaximizeAction::Maximize { moved: !same_container }
    } else {
        MaximizeAction::Restore
    }
}

/// Where a neighbour of a window is searched.
#[derive(Copy, Clone, Debug, PartialEq, Eq, Structural)]
pub enum MonitorSearchStrategy {
    /// Only on the monitor of the window.
    Same,
    /// On its monitor first, then on the closest monitor in the direction.
    Any,
}

/// The searches that find a neighbour, in the order in which they are tried.
#[derive(Copy, Clone, Debug, PartialEq, Eq, Structural)]
pub enum NeighbourSearch {
    /// No neighbour can be found.
    Skip,
    /// Only the closest monitor in the direction is searched.
    ClosestMonitor,
    /// Only the monitor of the window is searched.
    SameMonitor,
    /// The monitor of the window, then the closest monitor in the direction.
    SameThenClosestMonitor,
}

/// The searches for a neighbour of a window whose container shows `layer`,
/// on a monitor that has (`has_maximized`) or not a maximized window: a
/// focalized or maximized monitor has no neighbour on itself, and when it
/// has a maximized window only the next monitor is searched.
pub fn neighbour_search(
    layer: ContainerLayer,
    has_maximized: bool,
    strategy: MonitorSearchStrategy,
) -> (r: NeighbourSearch)
    ensures
        r == (match strategy {
            MonitorSearchStrategy::Same => if layer == ContainerLayer::Focalized || has_maximized {
                NeighbourSearch::Skip
            } else {
                NeighbourSearch::SameMonitor
            },
            MonitorSearchStrategy::Any => if has_maximized {
                NeighbourSearch::ClosestMonitor
            } else {
                NeighbourSearch::SameThenClosestMonitor
            },
        }),
{
    if (layer == ContainerLayer::Focalized || has_maximized) && matches!(
        strategy,
        MonitorSearchStrategy::Same
    ) {
        return NeighbourSearch::Skip;
    }
    if has_maximized && matches!(strategy, MonitorSearchStrategy::Any) {
        return NeighbourSearch::ClosestMonitor;
    }
    match strategy {
        MonitorSearchStrategy::Same => NeighbourSearch::SameMonitor,
        MonitorSearchStrategy::Any => NeighbourSearch::SameThenClosestMonitor,
    }
}

/// A resize of the tree: the split between `from` and `to` grows by
/// `growth` pixels.
#[derive(Copy, Clone, Debug, PartialEq, Eq)]
pub struct ResizeStep {
    pub from: (i32, i32),
    pub to: (i32, i32),
    pub growth: i32,
}

pub open spec fn abs_int(v: int) -> int {
    if v < 0 {
        -v
    } else {
        v
    }
}

/// Sides of a window resized by the delta `(dx, dy, dw, dh)` between its
/// old and new area: the width changed and the left side moved by more
/// than 10 pixels (left) or not (right); likewise for the height.
pub open spec fn spec_resize_directions(delta: (i32, i32, i32, i32)) -> (
    Option<Direction>,
    Option<Direction>,
) {
    (
        if delta.2 != 0 {
            Some(
                if abs_int(delta.0 as int) > 10 {
                    Direction::Left
                } else {
                    Direction::Right
                },
            )
        } else {
            None
        },
        if delta.3 != 0 {
            Some(
                if abs_int(delta.1 as int) > 10 {
                    Direction::Up
                } else {
                    Direction::Down
                },
            )
        } else {
            None
        },
    )
}

/// The directions in which a tiled window resized by `delta` needs a
/// neighbour for the resize to apply.
pub fn resize_directions(delta: (i32, i32, i32, i32)) -> (r: (Option<Direction>, Option<Direction>))
    requires
        delta.0 != i32::MIN,
        delta.1 != i32::MIN,
    ensures
        r == spec_resize_directions(delta),
{
    let (resize_w, resize_h) = (delta.2 != 0, delta.3 != 0);
    let left = delta.0 > 10 || delta.0 < -10;
    let up = delta.1 > 10 || delta.1 < -10;
    let w = if resize_w {
        Some(
            if left {
                Direction::Left
            } else {
                Direction::Right
            },
        )
    } else {
        None
    };
    let h = if resize_h {
        Some(
            if up {
                Direction::Up
            } else {
                Direction::Down
            },
        )
    } else {
        None
    };
    (w, h)
}

pub open spec fn sat_i32(v: int) -> int {
    if v < i32::MIN {
        i32::MIN as int
    } else if v > i32::MAX {
        i32::MAX as int
    } else {
        v
    }
}

/// The resize of the tree for a window of area `area` resized by `delta`
/// along the width, when it has a neighbour on that side.
pub open spec fn spec_width_step(delta: (i32, i32, i32, i32), area: Area) -> ResizeStep {
    let c = area.center();
    let left = abs_int(delta.0 as int) > 10;
    ResizeStep {
        from: (c.0 as i32, c.1 as i32),
        to: (
            (if left {
                sat_i32(area.x - 20)
            } else {
                sat_i32(area.right() + 20)
            }) as i32,
            c.1 as i32,
        ),
        growth: (if left {
            -delta.2
        } else {
            delta.2 as int
        }) as i32,
    }
}

/// The resize of the tree for a window of area `area` resized by `delta`
/// along the height, when it has a neighbour on that side.
pub open spec fn spec_height_step(delta: (i32, i32, i32, i32), area: Area) -> ResizeStep {
    let c = area.center();
    let up = abs_int(delta.1 as int) > 10;
    ResizeStep {
        from: (c.0 as i32, c.1 as i32),
        to: (
            c.0 as i32,
            (if up {
                sat_i32(area.y - 20)
            } else {
                sat_i32(area.bottom() + 20)
            }) as i32,
        ),
        growth: (if up {
            -delta.3
        } else {
            delta.3 as int
        }) as i32,
    }
}

pub open spec fn spec_resize_steps(
    delta: (i32, i32, i32, i32),
    area: Area,
    has_w_neigh: bool,
    has_h_neigh: bool,
) -> Seq<ResizeStep> {
    let w = if delta.2 != 0 && has_w_neigh {
        seq![spec_width_step(delta, area)]
    } else {
        Seq::empty()
    };
    let h = if delta.3 != 0 && has_h_neigh {
        seq![spec_height_step(delta, area)]
    } else {
        Seq::empty()
    };
    w + h
}

/// The resizes of the tree, from the center of the window's leaf to a point
/// 20 pixels past its moved side, that follow the resize of a tiled window
/// by `delta`; a side without neighbour is not resized.
pub fn resize_steps(
    delta: (i32, i32, i32, i32),
    area: Area,
    has_w_neigh: bool,
    has_h_neigh: bool,
) -> (r: Vec<ResizeStep>)
    requires
        area.wf(),
        delta.0 != i32::MIN,
        delta.1 != i32::MIN,
        delta.2 != i32::MIN,
        delta.3 != i32::MIN,
    ensures
        r@ == spec_resize_steps(delta, area, has_w_neigh, has_h_neigh),
{
    let mut steps: Vec<ResizeStep> = Vec::new();
    let center = area.get_center();
    let left = delta.0 > 10 || delta.0 < -10;
    let up = delta.1 > 10 || delta.1 < -10;
    if delta.2 != 0 && has_w_neigh {
        let growth = delta.2;
        let (x, growth) = if left {
            let x: i32 = if area.x >= i32::MIN + 20 {
                area.x - 20
            } else {
                i32::MIN
            };
            (x, -growth)
        } else {
            let r = area.get_right_edge();
            let x: i32 = if r <= i32::MAX - 20 {
                r + 20
            } else {
                i32::MAX
            };
            (x, growth)
        };
        steps.push(ResizeStep { from: center, to: (x, center.1), growth });
    }
    let ghost w = steps@;
    if delta.3 != 0 && has_h_neigh {
        let growth = delta.3;
        let (y, growth) = if up {
            let y: i32 = if area.y >= i32::MIN + 20 {
                area.y - 20
            } else {
                i32::MIN
            };
            (y, -growth)
        } else {
            let b = area.get_bottom_edge();
            let y: i32 = if b <= i32::MAX - 20 {
                b + 20
            } else {
                i32::MAX
            };
            (y, growth)
        };
        steps.push(ResizeStep { from: center, to: (center.0, y), growth });
    }
    assert(steps@ =~= spec_resize_steps(delta, area, has_w_neigh, has_h_neigh));
    steps
}

/// Padding `((left, right), (top, bottom))` of the area of a tiled window
/// grown by `increment` pixels (at most 500) towards `direction`: towards
/// `direction` when there is a neighbour there, else away from the other
/// side when there is a neighbour there, else none.
pub open spec fn spec_focused_resize_padding(
    direction: Direction,
    increment: u16,
    has_neigh1: bool,
    has_neigh2: bool,
) -> ((int, int), (int, int)) {
    let inc: int = if increment > 500 {
        500
    } else {
        increment as int
    };
    let pick = |v1: (int, int), v2: (int, int)|
        if has_neigh1 {
            v1
        } else if has_neigh2 {
            v2
        } else {
            (0int, 0int)
        };
    match direction {
        Direction::Left => (pick((inc, 0), (0, -inc)), (0, 0)),
        Direction::Right => (pick((0, inc), (-inc, 0)), (0, 0)),
        Direction::Up => ((0, 0), pick((inc, 0), (0, -inc))),
        Direction::Down => ((0, 0), pick((0, inc), (-inc, 0))),
    }
}

fn pick_pad(neigh1: bool, neigh2: bool, v1: (i16, i16), v2: (i16, i16)) -> (r: (i16, i16))
    ensures
        r == (if neigh1 {
            v1
        } else if neigh2 {
            v2
        } else {
            (0i16, 0i16)
        }),
{
    match (neigh1, neigh2) {
        (true, _) => v1,
        (false, true) => v2,
        _ => (0, 0),
    }
}

/// The padding applied to the area of the focused tiled window when it is
/// resized by `increment` towards `direction`; `has_neigh1` tells whether it
/// has a neighbour towards `direction`, `has_neigh2` one on the other side.
pub fn focused_resize_padding(
    direction: Direction,
    increment: u16,
    has_neigh1: bool,
    has_neigh2: bool,
) -> (r: ((i16, i16), (i16, i16)))
    ensures
        ({
            let s = spec_focused_resize_padding(direction, increment, has_neigh1, has_neigh2);
            r.0.0 == s.0.0 && r.0.1 == s.0.1 && r.1.0 == s.1.0 && r.1.1 == s.1.1
        }),
{
    let inc: i16 = if increment > 500 {
        500
    } else {
        increment as i16
    };
    match direction {
        Direction::Left => (pick_pad(has_neigh1, has_neigh2, (inc, 0), (0, -inc)), (0, 0)),
        Direction::Right => (pick_pad(has_neigh1, has_neigh2, (0, inc), (-inc, 0)), (0, 0)),
        Direction::Up => ((0, 0), pick_pad(has_neigh1, has_neigh2, (inc, 0), (0, -inc))),
        Direction::Down => ((0, 0), pick_pad(has_neigh1, has_neigh2, (0, inc), (-inc, 0))),
    }
}

/// What dropping a window on a window of the same monitor does.
#[derive(Copy, Clone, Debug, PartialEq, Eq, Structural)]
pub enum IntramonitorMoveOp {
    /// The two windows are swapped.
    Swap,
    /// The two windows are swapped and the tiles are inverted.
    Invert,
    /// The window is placed where it is dropped.
    InsertFreeMove,
}

/// What dropping a window on another monitor does.
#[derive(Copy, Clone, Debug, PartialEq, Eq, Structural)]
pub enum IntermonitorMoveOp {
    /// The window is swapped with the window it is dropped on.
    Swap,
    /// The window is inserted by the layout of that monitor.
    Insert,
    /// The window is inserted and the tiles are inverted.
    Invert,
    /// The window is placed where it is dropped.
    InsertFreeMove,
}

/// The operations a window dropped within its monitor and on another
/// monitor gets, from the configuration and the modifier keys held while
/// dragging it; ALT takes precedence over CTRL, CTRL over SHIFT. Within a
/// monitor the window swaps, inverting the tiles with ALT and moving freely
/// with CTRL. On another monitor ALT inserts and inverts, CTRL moves freely
/// unless free moves are the default (then it inserts), SHIFT swaps when
/// inserting is the default and inserts otherwise, and no key does the
/// default: swapping, or inserting (freely when free moves are the
/// default).
pub fn move_ops(
    insert_in_monitor: bool,
    free_move_in_monitor: bool,
    alt: bool,
    ctrl: bool,
    shift: bool,
) -> (r: (IntramonitorMoveOp, IntermonitorMoveOp))
    ensures
        r.0 == (if alt {
            IntramonitorMoveOp::Invert
        } else if ctrl {
            IntramonitorMoveOp::InsertFreeMove
        } else {
            IntramonitorMoveOp::Swap
        }),
        r.1 == (if alt {
            IntermonitorMoveOp::Invert
        } else if ctrl {
            if insert_in_monitor && free_move_in_monitor {
                IntermonitorMoveOp::Insert
            } else {
                IntermonitorMoveOp::InsertFreeMove
            }
        } else if shift {
            if insert_in_monitor {
                IntermonitorMoveOp::Swap
            } else {
                IntermonitorMoveOp::Insert
            }
        } else if !insert_in_monitor {
            IntermonitorMoveOp::Swap
        } else if free_move_in_monitor {
            IntermonitorMoveOp::InsertFreeMove
        } else {
            IntermonitorMoveOp::Insert
        }),
{
    let intra = if alt {
        IntramonitorMoveOp::Invert
    } else if ctrl {
        IntramonitorMoveOp::InsertFreeMove
    } else {
        IntramonitorMoveOp::Swap
    };
    let free_by_default = insert_in_monitor && free_move_in_monitor;
    let inter = if alt {
        IntermonitorMoveOp::Invert
    } else if ctrl {
        if free_by_default {
            IntermonitorMoveOp::Insert
        } else {
            IntermonitorMoveOp::InsertFreeMove
        }
    } else if shift {
        if insert_in_monitor {
            IntermonitorMoveOp::Swap
        } else {
            IntermonitorMoveOp::Insert
        }
    } else if !insert_in_monitor {
        IntermonitorMoveOp::Swap
    } else if free_by_default {
        IntermonitorMoveOp::InsertFreeMove
    } else {
        IntermonitorMoveOp::Insert
    };
    (intra, inter)
}

/// How a moved window is placed.
#[derive(Copy, Clone, Debug, PartialEq, Eq, Structural)]
pub enum MoveAction {
    /// Nothing changes.
    Nothing,
    /// The window is moved in its tree to where it was dropped.
    MoveTo,
    /// The window is swapped with the window it was dropped on.
    Swap,
    /// The window is inserted in the container where it was dropped, at
    /// that point (`free_move`) or by the layout.
    Insert { free_move: bool },
}

/// How a window dropped at a point is placed, and whether the orientation
/// of the tiles at that point is then switched: within a monitor it moves
/// freely or swaps with the window below; across monitors it is inserted,
/// unless it swaps with a window below it.
pub fn move_action(
    same_container: bool,
    has_target_window: bool,
    intra_op: IntramonitorMoveOp,
    inter_op: IntermonitorMoveOp,
) -> (r: (MoveAction, bool))
    ensures
        r.0 == (if same_container {
            if intra_op == IntramonitorMoveOp::InsertFreeMove {
                MoveAction::MoveTo
            } else if has_target_window {
                MoveAction::Swap
            } else {
                MoveAction::Nothing
            }
        } else if inter_op != IntermonitorMoveOp::Swap || !has_target_window {
            MoveAction::Insert { free_move: inter_op == IntermonitorMoveOp::InsertFreeMove }
        } else {
            MoveAction::Swap
        }),
        r.1 == (if same_container {
            intra_op == IntramonitorMoveOp::Invert
        } else {
            inter_op == IntermonitorMoveOp::Invert
        }),
{
    let action = if same_container {
        if matches!(intra_op, IntramonitorMoveOp::InsertFreeMove) {
            MoveAction::MoveTo
        } else if has_target_window {
            MoveAction::Swap
        } else {
            MoveAction::Nothing
        }
    } else if !matches!(inter_op, IntermonitorMoveOp::Swap) || !has_target_window {
        MoveAction::Insert { free_move: matches!(inter_op, IntermonitorMoveOp::InsertFreeMove) }
    } else {
        MoveAction::Swap
    };
    let switch_orient = match same_container {
        true => matches!(intra_op, IntramonitorMoveOp::Invert),
        false => matches!(inter_op, IntermonitorMoveOp::Invert),
    };
    (action, switch_orient)
}

/// What a focalize request does to a container.
#[derive(Copy, Clone, Debug, PartialEq, Eq, Structural)]
pub enum FocalizeAction {
    /// The container shows the window alone.
    Focalize,
    /// The container goes back to its normal layer.
    Restore,
    NoChange,
}

/// What `focalize` (forced on or off, or toggled when `None`) does to a
/// container showing `layer`.
pub fn focalize_action(focalize: Option<bool>, layer: ContainerLayer) -> (r: FocalizeAction)
    ensures
        r == (if focalize == Some(true) || (focalize is None && layer != ContainerLayer::Focalized) {
            FocalizeAction::Focalize
        } else if focalize == Some(false) || (focalize is None && layer == ContainerLayer::Focalized) {
            FocalizeAction::Restore
        } else {
            FocalizeAction::NoChange
        }),
{
    if focalize == Some(true) || (focalize.is_none() && matches!(
        layer,
        ContainerLayer::Normal | ContainerLayer::HalfFocalized
    )) {
        return FocalizeAction::Focalize;
    }
    if focalize == Some(false) || (focalize.is_none() && matches!(layer, ContainerLayer::Focalized)) {
        return FocalizeAction::Restore;
    }
    FocalizeAction::NoChange
}

/// What `half_focalize` (forced on or off, or toggled when `None`) does to a
/// container showing `layer`; a focalized container is left as it is when
/// toggled.
pub fn half_focalize_action(half_focalize: Option<bool>, layer: ContainerLayer) -> (r:
    FocalizeAction)
    ensures
        r == (if half_focalize == Some(true) || (half_focalize is None && layer
            == ContainerLayer::Normal) {
            FocalizeAction::Focalize
        } else if half_focalize == Some(false) || (half_focalize is None && layer
            == ContainerLayer::HalfFocalized) {
            FocalizeAction::Restore
        } else {
            FocalizeAction::NoChange
        }),
{
    if half_focalize == Some(true) || (half_focalize.is_none() && matches!(
        layer,
        ContainerLayer::Normal
    )) {
        return FocalizeAction::Focalize;
    }
    if half_focalize == Some(false) || (half_focalize.is_none() && matches!(
        layer,
        ContainerLayer::HalfFocalized
    )) {
        return FocalizeAction::Restore;
    }
    FocalizeAction::NoChange
}

pub open spec fn is_win(w: WindowRef) -> spec_fn(WindowRef) -> bool {
    |x: WindowRef| x == w
}

pub open spec fn not_win(w: WindowRef) -> spec_fn(WindowRef) -> bool {
    |x: WindowRef| x != w
}

pub open spec fn not_in(s: Seq<WindowRef>) -> spec_fn(WindowRef) -> bool {
    |x: WindowRef| !s.contains(x)
}

/// The container shows the layer that cycling (`half`: half focalized
/// only, focalized only, or either) applies to.
pub open spec fn cycles_layer(layer: ContainerLayer, half: Option<bool>) -> bool {
    match half {
        Some(true) => layer == ContainerLayer::HalfFocalized,
        Some(false) => layer == ContainerLayer::Focalized,
        None => layer == ContainerLayer::Focalized || layer == ContainerLayer::HalfFocalized,
    }
}

/// The position of the first `w` in `s`.
pub open spec fn first_position(s: Seq<WindowRef>, w: WindowRef) -> int {
    choose|i: int| 0 <= i < s.len() && s[i] == w && forall|j: int| 0 <= j < i ==> s[j] != w
}

/// The window after (`next`) or before `w` in `s`, going round.
pub open spec fn cycled(s: Seq<WindowRef>, w: WindowRef, next: bool) -> WindowRef {
    let i = first_position(s, w);
    s[(if next {
        i + 1
    } else {
        i - 1
    }) % (s.len() as int)]
}

/// The windows of a container that cycling goes through: those of the
/// normal layer that are not shown beside `f_win`.
pub open spec fn cycle_candidates(current: Seq<WindowRef>, normal: Seq<WindowRef>, f_win: WindowRef) -> Seq<
    WindowRef,
> {
    normal.filter(not_in(current.filter(not_win(f_win))))
}

/// The window that takes the place of `f_win` when cycling the windows of
/// a focalized or half focalized container: the next (or previous) one, in
/// the order of the normal layer and round, among the windows of the normal
/// layer that are not shown beside `f_win`. `None` when nothing is to
/// change: the container shows another layer, `f_win` is not shown exactly
/// once or with the wrong number of other windows, or it is its own
/// successor. An error when `f_win` is not in the normal layer.
#[verifier::opaque]
pub open spec fn spec_cycle_target(
    layer: ContainerLayer,
    half: Option<bool>,
    current: Seq<WindowRef>,
    normal: Seq<WindowRef>,
    f_win: WindowRef,
    next: bool,
) -> Result<Option<(WindowRef, WindowRef)>, TilesManagerError> {
    let others = current.filter(not_win(f_win));
    let allowed: nat = if layer == ContainerLayer::HalfFocalized {
        1
    } else {
        0
    };
    let wins = cycle_candidates(current, normal, f_win);
    if !cycles_layer(layer, half) || current.filter(is_win(f_win)).len() != 1 || others.len()
        != allowed {
        Ok(None)
    } else if !wins.contains(f_win) {
        Err(TilesManagerError::Generic)
    } else if cycled(wins, f_win, next) == f_win {
        Ok(None)
    } else {
        Ok(Some((f_win, cycled(wins, f_win, next))))
    }
}

/// Position of the first occurrence of `w` in `s`.
pub fn first_index(s: &Vec<WindowRef>, w: WindowRef) -> (r: Option<usize>)
    ensures
        match r {
            Some(p) => p < s@.len() && s@[p as int] == w && forall|j: int|
                0 <= j < p ==> s@[j] != w,
            None => !s@.contains(w),
        },
{
    let n = s.len();
    for i in 0..n
        invariant
            n == s@.len(),
            forall|j: int| 0 <= j < i ==> s@[j] != w,
    {
        if s[i] == w {
            return Some(i);
        }
    }
    None
}

/// The swap done by cycling the focalized or half focalized windows of a
/// container: the window `f_win` that is shown and the one that replaces
/// it. `current` holds the windows shown, `normal` those of the normal
/// layer.
pub fn cycle_target(
    layer: ContainerLayer,
    half: Option<bool>,
    current: &Vec<WindowRef>,
    normal: &Vec<WindowRef>,
    f_win: WindowRef,
    next: bool,
) -> (r: Result<Option<(WindowRef, WindowRef)>, TilesManagerError>)
    ensures
        r == spec_cycle_target(layer, half, current@, normal@, f_win, next),
{
    proof {
        reveal(spec_cycle_target);
    }
    let is_right_layer_type = match half {
        Some(true) => layer == ContainerLayer::HalfFocalized,
        Some(false) => layer == ContainerLayer::Focalized,
        _ => matches!(layer, ContainerLayer::Focalized | ContainerLayer::HalfFocalized),
    };
    if !is_right_layer_type {
        return Ok(None);
    }
    let mut main_count: usize = 0;
    let mut others: Vec<WindowRef> = Vec::new();
    let n = current.len();
    for i in 0..n
        invariant
            n == current@.len(),
            main_count == current@.subrange(0, i as int).filter(is_win(f_win)).len(),
            others@ == current@.subrange(0, i as int).filter(not_win(f_win)),
            main_count <= i,
    {
        let w = current[i];
        proof {
            assert(current@.subrange(0, i + 1) =~= current@.subrange(0, i as int).push(w));
            current@.subrange(0, i as int).lemma_filter_push(w, is_win(f_win));
            current@.subrange(0, i as int).lemma_filter_push(w, not_win(f_win));
        }
        if w == f_win {
            main_count = main_count + 1;
        } else {
            others.push(w);
        }
    }
    assert(current@.subrange(0, n as int) =~= current@);
    if main_count != 1 {
        return Ok(None);
    }
    let allowed_len: usize = if layer == ContainerLayer::HalfFocalized {
        1
    } else {
        0
    };
    if others.len() != allowed_len {
        return Ok(None);
    }
    let mut wins: Vec<WindowRef> = Vec::new();
    let m = normal.len();
    for i in 0..m
        invariant
            m == normal@.len(),
            wins@ == normal@.subrange(0, i as int).filter(not_in(others@)),
            wins@.len() <= i,
    {
        let w = normal[i];
        proof {
            assert(normal@.subrange(0, i + 1) =~= normal@.subrange(0, i as int).push(w));
            normal@.subrange(0, i as int).lemma_filter_push(w, not_in(others@));
        }
        let mut found = false;
        let k = others.len();
        for j in 0..k
            invariant
                k == others@.len(),
                found == (exists|q: int| 0 <= q < j && others@[q] == w),
        {
            if others[j] == w {
                found = true;
            }
        }
        if !found {
            wins.push(w);
        }
    }
    assert(normal@.subrange(0, m as int) =~= normal@);
    let len = wins.len();
    let pos = match first_index(&wins, f_win) {
        Some(p) => p,
        None => {
            return Err(TilesManagerError::Generic);
        },
    };
    let idx: usize = if next {
        if pos + 1 == len {
            0
        } else {
            pos + 1
        }
    } else {
        if pos == 0 {
            len - 1
        } else {
            pos - 1
        }
    };
    proof {
        let ghost i = first_position(wins@, f_win);
        assert(i == pos as int) by {
            if i < pos as int {
                assert(wins@[i] != f_win);
            } else if i > pos as int {
                assert(wins@[pos as int] != f_win);
            }
        }
        let d: int = if next { pos + 1 } else { pos - 1 };
        assert(idx as int == d % (len as int)) by {
            if next {
                if pos + 1 == len {
                    vstd::arithmetic::div_mod::lemma_mod_self_0(len as int);
                } else {
                    vstd::arithmetic::div_mod::lemma_small_mod((pos + 1) as nat, len as nat);
                }
            } else {
                if pos == 0 {
                    vstd::arithmetic::div_mod::lemma_mod_add_multiples_vanish(-1, len as int);
                    vstd::arithmetic::div_mod::lemma_small_mod((len - 1) as nat, len as nat);
                } else {
                    vstd::arithmetic::div_mod::lemma_small_mod((pos - 1) as nat, len as nat);
                }
            }
        }
        assert(wins@.contains(f_win));
    }
    let next_win = wins[idx];
    if next_win == f_win {
        return Ok(None);
    }
    Ok(Some((f_win, next_win)))
}

pub open spec fn neither(a: WindowRef, b: WindowRef) -> spec_fn(AreaLeaf<WindowRef>) -> bool {
    |l: AreaLeaf<WindowRef>| l.id != a && l.id != b
}

/// From the leaves sorted by surface: the biggest leaf other than the last
/// when the last is `window`, and the leaves left apart from `window` and
/// that one.
pub open spec fn pick_half_focalized(t: Seq<AreaLeaf<WindowRef>>, window: WindowRef) -> (
    AreaLeaf<WindowRef>,
    Seq<AreaLeaf<WindowRef>>,
) {
    let b = if t.last().id == window {
        t[t.len() - 2]
    } else {
        t.last()
    };
    let rest = if t.last().id == window {
        t.take(t.len() - 2)
    } else {
        t.drop_last()
    };
    (b, rest.filter(neither(window, b.id)))
}

/// Half focalizing `window` among the leaves of a container keeps the
/// biggest other leaf beside it (the last of the biggest, in the order of
/// the leaves) and removes the others, from the smallest; `None` when there
/// are fewer than two leaves.
pub fn half_focalize_selection(leaves: &Vec<AreaLeaf<WindowRef>>, window: WindowRef) -> (r: Option<
    (AreaLeaf<WindowRef>, Vec<AreaLeaf<WindowRef>>),
>)
    ensures
        r is None <==> leaves@.len() < 2,
        r matches Some(p) ==> exists|t: Seq<AreaLeaf<WindowRef>>|
            {
                &&& sorted_by_key(t, LeafOrder::BySurface)
                &&& same_per_key(t, leaves@, LeafOrder::BySurface)
                &&& t.len() == leaves@.len()
                &&& #[trigger] pick_half_focalized(t, window) == (p.0, p.1@)
            },
{
    if leaves.len() < 2 {
        return None;
    }
    let mut sorted = sort_leaves(leaves, LeafOrder::BySurface);
    let ghost t = sorted@;
    let last = sorted.pop().unwrap();
    let biggest = if last.id == window {
        sorted.pop().unwrap()
    } else {
        last
    };
    let ghost rest = sorted@;
    assert(rest =~= (if t.last().id == window {
        t.take(t.len() - 2)
    } else {
        t.drop_last()
    }));
    let mut removed: Vec<AreaLeaf<WindowRef>> = Vec::new();
    let n = sorted.len();
    for i in 0..n
        invariant
            n == sorted@.len(),
            removed@ == sorted@.subrange(0, i as int).filter(neither(window, biggest.id)),
    {
        let l = sorted[i];
        proof {
            assert(sorted@.subrange(0, i + 1) =~= sorted@.subrange(0, i as int).push(l));
            sorted@.subrange(0, i as int).lemma_filter_push(l, neither(window, biggest.id));
        }
        if l.id != window && l.id != biggest.id {
            removed.push(l);
        }
    }
    assert(sorted@.subrange(0, n as int) =~= sorted@);
    assert(pick_half_focalized(t, window) == (biggest, removed@));
    Some((biggest, removed))
}

} // verus!
