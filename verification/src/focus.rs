use vstd::prelude::*;

use crate::focus_history::{FocusHistory, is_latest_leaf};
use crate::geometry::{Area, distance, spec_distance};
use crate::result::TilesManagerError;
use crate::tm::WindowTileState;
use crate::utils::AreaLeaf;
use crate::window::WindowRef;

verus! {

/// How the size of a floating window is chosen: its own size, a fixed size
/// bounded by the monitor, or a size already worked out from the monitor
/// (a size relative to the monitor).
#[derive(Debug, Clone, Copy, PartialEq, Eq, Structural)]
pub enum FloatingSize {
    Preserve,
    Fixed { w: u16, h: u16 },
    Resolved { w: u16, h: u16 },
}

pub open spec fn min_u16(a: u16, b: u16) -> u16 {
    if a <= b {
        a
    } else {
        b
    }
}

/// The size a floating window gets on a monitor.
pub open spec fn spec_floating_size(size: FloatingSize, monitor: Area, window: Area) -> (u16, u16) {
    match size {
        FloatingSize::Preserve => (window.width, window.height),
        FloatingSize::Fixed { w, h } => (min_u16(w, monitor.width), min_u16(h, monitor.height)),
        FloatingSize::Resolved { w, h } => (w, h),
    }
}

/// The area a window gets when it floats on a monitor: the size the
/// strategy gives, centered on the monitor's area when asked, else at the
/// window's own origin. A window without known area has none.
pub fn get_floating_win_area(
    monitor_area: &Area,
    window_area: Option<Area>,
    size: FloatingSize,
    centered: bool,
) -> (r: Result<Area, TilesManagerError>)
    requires
        monitor_area.wf(),
        i32::MIN + 0x8000 <= monitor_area.x,
        i32::MIN + 0x8000 <= monitor_area.y,
    ensures
        match window_area {
            None => r == Err::<Area, TilesManagerError>(TilesManagerError::NoWindowsInfo),
            Some(a) => r is Ok && ({
                let s = spec_floating_size(size, *monitor_area, a);
                let n = r->Ok_0;
                &&& n.width == s.0
                &&& n.height == s.1
                &&& n.x == (if centered {
                    monitor_area.center().0 - s.0 / 2
                } else {
                    a.x as int
                })
                &&& n.y == (if centered {
                    monitor_area.center().1 - s.1 / 2
                } else {
                    a.y as int
                })
            }),
        },
{
    let (mx, my) = monitor_area.get_center();
    let a = match window_area {
        Some(a) => a,
        None => {
            return Err(TilesManagerError::NoWindowsInfo);
        },
    };
    let (w, h) = match size {
        FloatingSize::Preserve => (a.width, a.height),
        FloatingSize::Fixed { w, h } => (
            if w <= monitor_area.width {
                w
            } else {
                monitor_area.width
            },
            if h <= monitor_area.height {
                h
            } else {
                monitor_area.height
            },
        ),
        FloatingSize::Resolved { w, h } => (w, h),
    };
    let (x, y) = if centered {
        (mx - (w / 2) as i32, my - (h / 2) as i32)
    } else {
        (a.x, a.y)
    };
    Ok(Area::new(x, y, w, h))
}

/// Squared distance between the point of an entry and `from`.
pub open spec fn point_distance(e: (WindowRef, (i32, i32)), from: (i32, i32)) -> int {
    spec_distance(e.1, from)
}

/// Entry `i` is the first of those nearest to `from` among the entries
/// other than `exclude`.
pub open spec fn is_first_nearest_point(
    s: Seq<(WindowRef, (i32, i32))>,
    from: (i32, i32),
    exclude: Option<WindowRef>,
    i: int,
) -> bool {
    &&& 0 <= i < s.len()
    &&& Some(s[i].0) != exclude
    &&& forall|j: int|
        0 <= j < i && Some(#[trigger] s[j].0) != exclude ==> point_distance(s[i], from)
            < point_distance(s[j], from)
    &&& forall|j: int|
        i < j < s.len() && Some(#[trigger] s[j].0) != exclude ==> point_distance(s[i], from)
            <= point_distance(s[j], from)
}

fn nearest_point(points: &Vec<(WindowRef, (i32, i32))>, from: (i32, i32), exclude: Option<WindowRef>) -> (r:
    Option<usize>)
    ensures
        match r {
            Some(i) => is_first_nearest_point(points@, from, exclude, i as int),
            None => forall|j: int| 0 <= j < points@.len() ==> Some(#[trigger] points@[j].0) == exclude,
        },
{
    let n = points.len();
    let mut best: Option<usize> = None;
    let mut best_d: u128 = 0;
    for i in 0..n
        invariant
            n == points@.len(),
            match best {
                Some(b) => {
                    &&& b < i
                    &&& Some(points@[b as int].0) != exclude
                    &&& best_d == point_distance(points@[b as int], from)
                    &&& forall|j: int|
                        0 <= j < b && Some(#[trigger] points@[j].0) != exclude ==> best_d
                            < point_distance(points@[j], from)
                    &&& forall|j: int|
                        b < j < i && Some(#[trigger] points@[j].0) != exclude ==> best_d
                            <= point_distance(points@[j], from)
                },
                None => forall|j: int| 0 <= j < i ==> Some(#[trigger] points@[j].0) == exclude,
            },
    {
        let (w, p) = points[i];
        let excluded = match exclude {
            Some(x) => x == w,
            None => false,
        };
        if !excluded {
            let d = distance(p, from);
            match best {
                Some(_) => {
                    if d < best_d {
                        best = Some(i);
                        best_d = d;
                    }
                },
                None => {
                    best = Some(i);
                    best_d = d;
                },
            }
        }
    }
    best
}

/// The window the focus switches to from `current`, whose center is
/// `center`, between the tiled and the floating windows: from a floating
/// window, the first of the other shown managed windows nearest to it;
/// from a maximized window, none; from a tiled window, the first of the
/// floating windows nearest to it. Windows come with the centers of their
/// areas; finding none to switch to is an error.
pub fn switch_focus_target(
    state: WindowTileState,
    current: WindowRef,
    center: (i32, i32),
    managed: &Vec<(WindowRef, (i32, i32))>,
    floating: &Vec<(WindowRef, (i32, i32))>,
) -> (r: Result<Option<WindowRef>, TilesManagerError>)
    ensures
        match state {
            WindowTileState::Floating => match r {
                Ok(Some(w)) => exists|i: int|
                    is_first_nearest_point(managed@, center, Some(current), i) && managed@[i].0 == w,
                Ok(None) => false,
                Err(e) => e == TilesManagerError::NoWindow && forall|j: int|
                    0 <= j < managed@.len() ==> (#[trigger] managed@[j]).0 == current,
            },
            WindowTileState::Maximized => r == Ok::<Option<WindowRef>, TilesManagerError>(None),
            _ => match r {
                Ok(Some(w)) => exists|i: int|
                    is_first_nearest_point(floating@, center, None, i) && floating@[i].0 == w,
                Ok(None) => false,
                Err(e) => e == TilesManagerError::NoWindow && floating@.len() == 0,
            },
        },
{
    match state {
        WindowTileState::Floating => match nearest_point(managed, center, Some(current)) {
            Some(i) => {
                assert(is_first_nearest_point(managed@, center, Some(current), i as int));
                Ok(Some(managed[i].0))
            },
            None => Err(TilesManagerError::NoWindow),
        },
        WindowTileState::Maximized => Ok(None),
        _ => match nearest_point(floating, center, None) {
            Some(i) => {
                assert(is_first_nearest_point(floating@, center, None, i as int));
                Ok(Some(floating[i].0))
            },
            None => {
                proof {
                    if floating@.len() > 0 {
                        let x = floating@[0].0;
                        assert(Some(x) == None::<WindowRef>);
                        assert(false);
                    }
                }
                Err(TilesManagerError::NoWindow)
            },
        },
    }
}

/// Leaf `i` is the last of the leaves with the largest surface.
pub open spec fn is_last_largest(s: Seq<AreaLeaf<WindowRef>>, i: int) -> bool {
    &&& 0 <= i < s.len()
    &&& forall|j: int|
        0 <= j < i ==> (#[trigger] s[j]).viewbox.width * s[j].viewbox.height <= s[i].viewbox.width
            * s[i].viewbox.height
    &&& forall|j: int|
        i < j < s.len() ==> (#[trigger] s[j]).viewbox.width * s[j].viewbox.height
            < s[i].viewbox.width * s[i].viewbox.height
}

/// The window that `current` swaps places with when it is amplified: the
/// last of the leaves of its tree with the largest surface, unless that is
/// `current` itself; none for a focalized, maximized or floating window.
pub fn amplify_target(state: WindowTileState, current: WindowRef, leaves: &Vec<AreaLeaf<WindowRef>>) -> (r:
    Option<WindowRef>)
    ensures
        (state == WindowTileState::Focalized || state == WindowTileState::Maximized || state
            == WindowTileState::Floating) ==> r is None,
        !(state == WindowTileState::Focalized || state == WindowTileState::Maximized || state
            == WindowTileState::Floating) ==> match r {
            Some(w) => w != current && exists|i: int| is_last_largest(leaves@, i) && leaves@[i].id == w,
            None => leaves@.len() == 0 || exists|i: int|
                is_last_largest(leaves@, i) && leaves@[i].id == current,
        },
{
    match state {
        WindowTileState::Focalized | WindowTileState::Maximized | WindowTileState::Floating => {
            return None;
        },
        _ => {},
    }
    let n = leaves.len();
    if n == 0 {
        return None;
    }
    let mut best: usize = 0;
    let mut best_s: u32 = leaves[0].viewbox.calc_area();
    for i in 1..n
        invariant
            n == leaves@.len(),
            best < i,
            best_s == leaves@[best as int].viewbox.width * leaves@[best as int].viewbox.height,
            forall|j: int|
                0 <= j < best ==> (#[trigger] leaves@[j]).viewbox.width * leaves@[j].viewbox.height
                    <= best_s,
            forall|j: int|
                best < j < i ==> (#[trigger] leaves@[j]).viewbox.width * leaves@[j].viewbox.height
                    < best_s,
    {
        let s = leaves[i].viewbox.calc_area();
        if s >= best_s {
            best = i;
            best_s = s;
        }
    }
    let w = leaves[best].id;
    assert(is_last_largest(leaves@, best as int));
    if w == current {
        None
    } else {
        Some(w)
    }
}

/// The upper case form of a text, as Unicode maps each character
/// (`str::to_uppercase`).
pub uninterp spec fn uppercase(s: Seq<char>) -> Seq<char>;

/// Calls `str::to_uppercase`. Its result depends on the text alone (the
/// Unicode case mapping, with no locale); the contract names it
/// `uppercase` and says nothing more of it.
#[verifier::external_body]
fn to_uppercase(s: &String) -> (r: String)
    ensures
        r@ == uppercase(s@),
{
    s.to_uppercase()
}

/// The monitor on which a workspace is focused: the one the workspace is
/// bound to, else the one asked for, its name in upper case, else the last
/// focused empty monitor, else the one under the focused window. The focus
/// moves to the workspace's windows unless it is bound.
pub fn workspace_monitor(
    bounded: Option<String>,
    requested: Option<String>,
    last_focused: Option<String>,
    under_focus: Option<String>,
) -> (r: (Option<String>, bool))
    ensures
        bounded is Some ==> r.0 == bounded,
        bounded is None && requested is Some ==> r.0 is Some && r.0->0@ == uppercase(requested->0@),
        bounded is None && requested is None ==> r.0 == (if last_focused is Some {
            last_focused
        } else {
            under_focus
        }),
        r.1 == bounded is None,
{
    let move_focus = bounded.is_none();
    let m = match bounded {
        Some(b) => Some(b),
        None => match requested {
            Some(q) => Some(to_uppercase(&q)),
            None => match last_focused {
                Some(l) => Some(l),
                None => under_focus,
            },
        },
    };
    (m, move_focus)
}

pub open spec fn not_leaf_of(w: WindowRef) -> spec_fn(AreaLeaf<WindowRef>) -> bool {
    |l: AreaLeaf<WindowRef>| l.id != w
}

/// The leaves other than `excluded`.
pub open spec fn without(s: Seq<AreaLeaf<WindowRef>>, excluded: WindowRef) -> Seq<AreaLeaf<WindowRef>> {
    s.filter(not_leaf_of(excluded))
}

fn leaves_without(leaves: &Vec<AreaLeaf<WindowRef>>, excluded: WindowRef) -> (r: Vec<AreaLeaf<WindowRef>>)
    ensures
        r@ == without(leaves@, excluded),
{
    let mut r: Vec<AreaLeaf<WindowRef>> = Vec::new();
    let n = leaves.len();
    for i in 0..n
        invariant
            n == leaves@.len(),
            r@ == without(leaves@.take(i as int), excluded),
    {
        let l = leaves[i];
        proof {
            assert(leaves@.take(i + 1) =~= leaves@.take(i as int).push(l));
            leaves@.take(i as int).lemma_filter_push(l, not_leaf_of(excluded));
        }
        if l.id != excluded {
            r.push(l);
        }
    }
    assert(leaves@.take(n as int) =~= leaves@);
    r
}

/// The neighbour chosen among the leaves along the side of a window
/// (`leaves`, in the order of that side): with history based navigation,
/// the most recently focused of them other than `excluded`, if any of them
/// is remembered; otherwise the first one, or the second when the first is
/// `excluded`.
pub fn best_matching_leaf(
    history: &FocusHistory,
    history_based: bool,
    excluded: WindowRef,
    leaves: &Vec<AreaLeaf<WindowRef>>,
) -> (r: Option<AreaLeaf<WindowRef>>)
    requires
        history.wf(),
    ensures
        ({
            let others = without(leaves@, excluded);
            let remembered = exists|j: int|
                0 <= j < others.len() && history@.values.contains_key(#[trigger] others[j].id);
            if history_based && remembered {
                exists|i: int| is_latest_leaf(history@.values, others, i) && r == Some(others[i])
            } else if leaves@.len() >= 1 && leaves@[0].id != excluded {
                r == Some(leaves@[0])
            } else if leaves@.len() >= 2 {
                r == Some(leaves@[1])
            } else {
                r is None
            }
        }),
{
    if history_based {
        let others = leaves_without(leaves, excluded);
        let latest = history.latest(&others);
        if latest.is_some() {
            return latest;
        }
    }
    if leaves.len() >= 1 && leaves[0].id != excluded {
        Some(leaves[0])
    } else if leaves.len() >= 2 {
        Some(leaves[1])
    } else {
        None
    }
}

/// What gets the focus when it moves to another monitor.
#[derive(Debug, Clone, Copy, PartialEq, Eq, Structural)]
pub enum MonitorFocus {
    /// This window of the monitor.
    Window(WindowRef),
    /// The monitor itself, which shows no window to focus.
    Monitor,
}

/// The focus on another monitor: its maximized window, if any; else, with
/// history based navigation, the most recently focused of its windows
/// (`leaves`), if any is remembered; else the first of its windows along the
/// side facing where the focus comes from (`edge_leaves`, in the order of
/// that side); else the monitor itself.
pub fn monitor_focus_target(
    maximized: Option<WindowRef>,
    history: &FocusHistory,
    history_based: bool,
    leaves: &Vec<AreaLeaf<WindowRef>>,
    edge_leaves: &Vec<AreaLeaf<WindowRef>>,
) -> (r: MonitorFocus)
    requires
        history.wf(),
    ensures
        ({
            let remembered = exists|j: int|
                0 <= j < leaves@.len() && history@.values.contains_key(#[trigger] leaves@[j].id);
            if maximized is Some {
                r == MonitorFocus::Window(maximized->0)
            } else if history_based && remembered {
                exists|i: int|
                    is_latest_leaf(history@.values, leaves@, i) && r == MonitorFocus::Window(
                        leaves@[i].id,
                    )
            } else if edge_leaves@.len() > 0 {
                r == MonitorFocus::Window(edge_leaves@[0].id)
            } else {
                r == MonitorFocus::Monitor
            }
        }),
{
    if let Some(w) = maximized {
        return MonitorFocus::Window(w);
    }
    if history_based {
        if let Some(l) = history.latest(leaves) {
            return MonitorFocus::Window(l.id);
        }
    }
    if edge_leaves.len() > 0 {
        MonitorFocus::Window(edge_leaves[0].id)
    } else {
        MonitorFocus::Monitor
    }
}

} // verus!
