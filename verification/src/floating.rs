use vstd::prelude::*;

use crate::geometry::{Area, Direction, distance, spec_distance};
use crate::monitor::Monitor;
use crate::window::{WindowRef, distinct_windows};
use crate::window_map::WindowMap;

verus! {

/// Smallest width or height a floating window is resized to.
pub const MIN_FLOATING_DIM: u16 = 250;

/// Distance from a monitor edge within which a floating window moving
/// towards that edge jumps to the next monitor.
pub const CROSS_MONITOR_THRESHOLD: i32 = 15;

/// State of a floating window.
#[derive(Debug, Clone, Copy, PartialEq, Eq, Structural)]
pub struct FloatingProperties {
    pub minimized: bool,
    pub locked: bool,
}

impl FloatingProperties {
    pub fn new() -> (p: FloatingProperties)
        ensures
            !p.minimized,
            !p.locked,
    {
        FloatingProperties { minimized: false, locked: false }
    }
}

/// The floating windows with their state.
pub trait FloatingWindows {
    spec fn floating_view(&self) -> Map<WindowRef, FloatingProperties>;

    spec fn floating_wf(&self) -> bool;

    /// The windows that are not minimized.
    fn enabled_keys(&self) -> (r: Vec<WindowRef>)
        requires
            self.floating_wf(),
        ensures
            distinct_windows(r@),
            forall|w: WindowRef|
                r@.contains(w) <==> (self.floating_view().contains_key(w)
                    && !self.floating_view()[w].minimized),
    ;

    /// Whether `window` is locked, if it is a floating window.
    fn locked(&self, window: &WindowRef) -> (r: Option<bool>)
        requires
            self.floating_wf(),
        ensures
            r == (if self.floating_view().contains_key(*window) {
                Some(self.floating_view()[*window].locked)
            } else {
                None::<bool>
            }),
    ;

    /// Sets both properties of `window`, if it is a floating window.
    fn set_properties(&mut self, window: &WindowRef, minimized: bool, locked: bool)
        requires
            old(self).floating_wf(),
        ensures
            final(self).floating_wf(),
            final(self).floating_view() == (if old(self).floating_view().contains_key(*window) {
                old(self).floating_view().insert(
                    *window,
                    FloatingProperties { minimized, locked },
                )
            } else {
                old(self).floating_view()
            }),
    ;

    /// Locks or unlocks every floating window.
    fn set_all_locked(&mut self, locked: bool)
        requires
            old(self).floating_wf(),
        ensures
            final(self).floating_wf(),
            final(self).floating_view() == Map::new(
                |w: WindowRef| old(self).floating_view().contains_key(w),
                |w: WindowRef|
                    FloatingProperties {
                        minimized: old(self).floating_view()[w].minimized,
                        locked,
                    },
            ),
    ;

    /// Locks or unlocks `window`, if it is a floating window.
    fn set_locked(&mut self, window: &WindowRef, locked: bool)
        requires
            old(self).floating_wf(),
        ensures
            final(self).floating_wf(),
            final(self).floating_view() == (if old(self).floating_view().contains_key(*window) {
                old(self).floating_view().insert(
                    *window,
                    FloatingProperties {
                        minimized: old(self).floating_view()[*window].minimized,
                        locked,
                    },
                )
            } else {
                old(self).floating_view()
            }),
    ;

    /// Marks `window` as minimized or not, if it is a floating window.
    fn set_minimized(&mut self, window: &WindowRef, minimized: bool)
        requires
            old(self).floating_wf(),
        ensures
            final(self).floating_wf(),
            final(self).floating_view() == (if old(self).floating_view().contains_key(*window) {
                old(self).floating_view().insert(
                    *window,
                    FloatingProperties {
                        minimized,
                        locked: old(self).floating_view()[*window].locked,
                    },
                )
            } else {
                old(self).floating_view()
            }),
    ;

    /// A window can be forgotten when it is not floating, or when it is
    /// neither minimized nor locked.
    fn can_be_closed(&self, window: &WindowRef) -> (b: bool)
        requires
            self.floating_wf(),
        ensures
            b == (!self.floating_view().contains_key(*window) || (
            !self.floating_view()[*window].minimized && !self.floating_view()[*window].locked)),
    ;
}

impl FloatingWindows for WindowMap<FloatingProperties> {
    open spec fn floating_view(&self) -> Map<WindowRef, FloatingProperties> {
        self@
    }

    open spec fn floating_wf(&self) -> bool {
        self.wf()
    }

    fn enabled_keys(&self) -> (r: Vec<WindowRef>) {
        let mut r: Vec<WindowRef> = Vec::new();
        let n = self.len();
        for i in 0..n
            invariant
                n == self.seq().len(),
                self.wf(),
                distinct_windows(r@),
                forall|w: WindowRef|
                    r@.contains(w) <==> exists|j: int|
                        0 <= j < i && self.seq()[j].0 == w && !self.seq()[j].1.minimized,
        {
            let e = self.entry(i);
            proof {
                self.lemma_index(i as int);
            }
            if !e.1.minimized {
                proof {
                    assert forall|j: int| 0 <= j < r@.len() implies r@[j] != e.0 by {
                        let w = r@[j];
                        assert(r@.contains(w));
                        let k = choose|k: int|
                            0 <= k < i && self.seq()[k].0 == w && !self.seq()[k].1.minimized;
                        self.lemma_distinct(k, i as int);
                    }
                }
                let ghost r0 = r@;
                r.push(e.0);
                proof {
                    assert forall|w: WindowRef|
                        r@.contains(w) <==> exists|j: int|
                            0 <= j < i + 1 && self.seq()[j].0 == w
                                && !self.seq()[j].1.minimized by {
                        if r@.contains(w) {
                            let k = choose|k: int| 0 <= k < r@.len() && r@[k] == w;
                            if k < r0.len() {
                                assert(r0.contains(w));
                            } else {
                                assert(self.seq()[i as int].0 == w);
                            }
                        }
                        if exists|j: int|
                            0 <= j < i + 1 && self.seq()[j].0 == w
                                && !self.seq()[j].1.minimized {
                            let j = choose|j: int|
                                0 <= j < i + 1 && self.seq()[j].0 == w
                                    && !self.seq()[j].1.minimized;
                            if j < i {
                                assert(r0.contains(w));
                                let k = choose|k: int| 0 <= k < r0.len() && r0[k] == w;
                                assert(r@[k] == w);
                            } else {
                                assert(r@[r0.len() as int] == w);
                            }
                        }
                    }
                }
            } else {
                proof {
                    assert forall|w: WindowRef|
                        r@.contains(w) <==> exists|j: int|
                            0 <= j < i + 1 && self.seq()[j].0 == w
                                && !self.seq()[j].1.minimized by {
                        if exists|j: int|
                            0 <= j < i + 1 && self.seq()[j].0 == w
                                && !self.seq()[j].1.minimized {
                            let j = choose|j: int|
                                0 <= j < i + 1 && self.seq()[j].0 == w
                                    && !self.seq()[j].1.minimized;
                            if j == i {
                                self.lemma_index(j);
                            }
                        }
                    }
                }
            }
        }
        proof {
            assert forall|w: WindowRef|
                r@.contains(w) <==> (self@.contains_key(w) && !self@[w].minimized) by {
                if r@.contains(w) {
                    let j = choose|j: int|
                        0 <= j < n && self.seq()[j].0 == w && !self.seq()[j].1.minimized;
                    self.lemma_index(j);
                }
                if self@.contains_key(w) && !self@[w].minimized {
                    let j = choose|j: int| 0 <= j < self.seq().len() && self.seq()[j].0 == w;
                    self.lemma_index(j);
                }
            }
        }
        r
    }

    fn locked(&self, window: &WindowRef) -> (r: Option<bool>) {
        match self.get(window) {
            Some(props) => Some(props.locked),
            None => None,
        }
    }

    fn set_properties(&mut self, window: &WindowRef, minimized: bool, locked: bool) {
        if let Some(i) = self.find(window) {
            self.set_value(i, FloatingProperties { minimized, locked });
        }
    }

    fn set_all_locked(&mut self, locked: bool) {
        let ghost m0 = self@;
        let n = self.len();
        for i in 0..n
            invariant
                n == self.seq().len(),
                self.wf(),
                self@.dom() == m0.dom(),
                forall|w: WindowRef|
                    #![trigger self@[w]]
                    m0.contains_key(w) ==> self@[w].minimized == m0[w].minimized,
                forall|j: int| 0 <= j < i ==> #[trigger] self@[self.seq()[j].0].locked == locked,
                forall|j: int| 0 <= j < n ==> #[trigger] self.seq()[j].0 == old(self).seq()[j].0,
        {
            let e = self.entry(i);
            proof {
                self.lemma_index(i as int);
            }
            let ghost s = self.seq();
            self.set_value(i, FloatingProperties { minimized: e.1.minimized, locked });
            proof {
                assert(self@.dom() =~= m0.dom());
                assert forall|j: int| 0 <= j < i + 1 implies #[trigger] self@[self.seq()[j].0].locked
                    == locked by {
                    if j < i {
                        assert(s[j].0 == self.seq()[j].0);
                    }
                }
            }
        }
        proof {
            let target = Map::new(
                |w: WindowRef| m0.contains_key(w),
                |w: WindowRef| FloatingProperties { minimized: m0[w].minimized, locked },
            );
            assert forall|w: WindowRef| #[trigger] self@.contains_key(w) implies self@[w]
                == target[w] by {
                let j = choose|j: int| 0 <= j < self.seq().len() && self.seq()[j].0 == w;
                assert(self@[self.seq()[j].0].locked == locked);
            }
            assert(self@ =~= target);
        }
    }

    fn set_locked(&mut self, window: &WindowRef, locked: bool) {
        if let Some(i) = self.find(window) {
            let e = self.entry(i);
            proof {
                self.lemma_index(i as int);
            }
            self.set_value(i, FloatingProperties { minimized: e.1.minimized, locked });
        }
    }

    fn set_minimized(&mut self, window: &WindowRef, minimized: bool) {
        if let Some(i) = self.find(window) {
            let e = self.entry(i);
            proof {
                self.lemma_index(i as int);
            }
            self.set_value(i, FloatingProperties { minimized, locked: e.1.locked });
        }
    }

    fn can_be_closed(&self, window: &WindowRef) -> (b: bool) {
        match self.get(window) {
            Some(props) => !props.minimized && !props.locked,
            None => true,
        }
    }
}

/// The padding `(before, after)` that brings a dimension `dim` up to
/// `min_dim`, half on each side (the odd unit before).
pub open spec fn spec_corrective_pad(min_dim: i16, dim: i16) -> (int, int) {
    if dim >= min_dim {
        (0, 0)
    } else {
        let offset = if min_dim - dim > i16::MAX {
            i16::MAX as int
        } else {
            min_dim - dim
        };
        let half = (offset + 1) / 2;
        (-half, half - offset)
    }
}

/// Padding that grows a dimension `dim` to `min_dim`, split on both sides;
/// a negative padding widens the area.
pub fn get_corrective_pad(min_dim: i16, dim: i16) -> (r: (i16, i16))
    ensures
        r.0 == spec_corrective_pad(min_dim, dim).0,
        r.1 == spec_corrective_pad(min_dim, dim).1,
        dim < min_dim && min_dim - dim <= i16::MAX ==> {
            &&& -(r.0 + r.1) == min_dim - dim
            &&& -r.0 == (min_dim - dim + 1) / 2
            &&& -r.1 == (min_dim - dim) / 2
        },
        dim >= min_dim ==> r == (0i16, 0i16),
{
    if dim >= min_dim {
        return (0, 0);
    }
    let diff: i32 = min_dim as i32 - dim as i32;
    let offset: i16 = if diff > i16::MAX as i32 {
        i16::MAX
    } else {
        diff as i16
    };
    let new_dim: i16 = ((offset as i32 + 1) / 2) as i16;
    (-new_dim, new_dim - offset)
}

/// `area` moved by `dx` horizontally, with the shift limited to `i16`.
pub open spec fn clamp_shift(v: int) -> int {
    if v < i16::MIN {
        i16::MIN as int
    } else {
        v
    }
}

pub open spec fn spec_max(a: int, b: int) -> int {
    if a >= b {
        a
    } else {
        b
    }
}

pub open spec fn spec_min(a: int, b: int) -> int {
    if a <= b {
        a
    } else {
        b
    }
}

/// `src` cut to the size of `dest`, moved inside it.
pub open spec fn spec_fit_area(src: Area, dest: Area) -> Area {
    let x = spec_max(src.x as int, dest.x as int);
    let y = spec_max(src.y as int, dest.y as int);
    let w = spec_min(src.width as int, dest.width as int);
    let h = spec_min(src.height as int, dest.height as int);
    let off_h = spec_min(dest.bottom() - (y + h), 0);
    let off_w = spec_min(dest.right() - (x + w), 0);
    Area {
        x: (x + clamp_shift(off_w)) as i32,
        y: (y + clamp_shift(off_h)) as i32,
        width: w as u16,
        height: h as u16,
    }
}

/// The step of a floating window's move, bounded to what a shift takes.
pub open spec fn bounded_step(step: u16) -> int {
    if step > 32767 {
        32767
    } else {
        step as int
    }
}

/// The area moved by `s` towards `d`.
pub open spec fn moved(area: Area, d: Direction, s: int) -> Area {
    match d {
        Direction::Left => Area { x: (area.x - s) as i32, ..area },
        Direction::Right => Area { x: (area.x + s) as i32, ..area },
        Direction::Up => Area { y: (area.y - s) as i32, ..area },
        Direction::Down => Area { y: (area.y + s) as i32, ..area },
    }
}

/// The area moved by `s` towards `d` stays within the integers of a
/// position and its edges.
pub open spec fn can_move(area: Area, d: Direction, s: int) -> bool {
    match d {
        Direction::Left => area.x - s >= i32::MIN,
        Direction::Right => area.x + s + area.width <= i32::MAX,
        Direction::Up => area.y - s >= i32::MIN,
        Direction::Down => area.y + s + area.height <= i32::MAX,
    }
}

/// What a move of a floating window does.
#[derive(Debug, Clone, Copy, PartialEq, Eq, Structural)]
pub enum FloatingMove {
    /// The window is at the monitor's edge in that direction: it goes to
    /// the next monitor, as an insert does.
    InsertAcross,
    /// The window moves to this area.
    MoveTo(Area),
}

/// A floating window within `CROSS_MONITOR_THRESHOLD` of its monitor's
/// edge in the direction of the move goes to the next monitor; otherwise it
/// moves by the step (at most `i16::MAX`) and is kept within the monitor.
pub fn floating_move(area: &Area, monitor_area: &Area, direction: Direction, step: u16) -> (r: FloatingMove)
    requires
        area.wf(),
        monitor_area.wf(),
        can_move(*area, direction, bounded_step(step)),
        monitor_area.bottom() - (spec_max(
            moved(*area, direction, bounded_step(step)).y as int,
            monitor_area.y as int,
        ) + spec_min(area.height as int, monitor_area.height as int)) >= i32::MIN,
        monitor_area.right() - (spec_max(
            moved(*area, direction, bounded_step(step)).x as int,
            monitor_area.x as int,
        ) + spec_min(area.width as int, monitor_area.width as int)) >= i32::MIN,
    ensures
        r == (if -CROSS_MONITOR_THRESHOLD <= area.edge(direction) - monitor_area.edge(direction)
            <= CROSS_MONITOR_THRESHOLD {
            FloatingMove::InsertAcross
        } else {
            FloatingMove::MoveTo(
                spec_fit_area(moved(*area, direction, bounded_step(step)), *monitor_area),
            )
        }),
{
    let gap: i64 = area.get_edge(direction) as i64 - monitor_area.get_edge(direction) as i64;
    let threshold: i64 = CROSS_MONITOR_THRESHOLD as i64;
    if -threshold <= gap && gap <= threshold {
        return FloatingMove::InsertAcross;
    }
    let s: i32 = if step > 32767 {
        32767
    } else {
        step as i32
    };
    let shifted = match direction {
        Direction::Left => Area { x: area.x - s, ..*area },
        Direction::Right => Area { x: area.x + s, ..*area },
        Direction::Up => Area { y: area.y - s, ..*area },
        Direction::Down => Area { y: area.y + s, ..*area },
    };
    FloatingMove::MoveTo(fit_area(&shifted, monitor_area))
}

/// The area `src` limited to the size of `dest` and moved so that it does
/// not cross the right or bottom edge of `dest`.
pub fn fit_area(src_area: &Area, dest_area: &Area) -> (r: Area)
    requires
        src_area.wf(),
        dest_area.wf(),
        dest_area.bottom() - (spec_max(src_area.y as int, dest_area.y as int) + spec_min(
            src_area.height as int,
            dest_area.height as int,
        )) >= i32::MIN,
        dest_area.right() - (spec_max(src_area.x as int, dest_area.x as int) + spec_min(
            src_area.width as int,
            dest_area.width as int,
        )) >= i32::MIN,
    ensures
        r == spec_fit_area(*src_area, *dest_area),
        r.wf(),
        r.width <= dest_area.width && r.height <= dest_area.height,
        dest_area.right() - (spec_max(src_area.x as int, dest_area.x as int) + r.width)
            >= i16::MIN ==> dest_area.x <= r.x && r.right() <= dest_area.right(),
        dest_area.bottom() - (spec_max(src_area.y as int, dest_area.y as int) + r.height)
            >= i16::MIN ==> dest_area.y <= r.y && r.bottom() <= dest_area.bottom(),
{
    let x = if src_area.x >= dest_area.x {
        src_area.x
    } else {
        dest_area.x
    };
    let y = if src_area.y >= dest_area.y {
        src_area.y
    } else {
        dest_area.y
    };
    let w = if src_area.width <= dest_area.width {
        src_area.width
    } else {
        dest_area.width
    };
    let h = if src_area.height <= dest_area.height {
        src_area.height
    } else {
        dest_area.height
    };
    let area = Area::new(x, y, w, h);
    let dh = dest_area.get_bottom_edge() - area.get_bottom_edge();
    let offset_h: i32 = if dh <= 0 {
        dh
    } else {
        0
    };
    let dw = dest_area.get_right_edge() - area.get_right_edge();
    let offset_w: i32 = if dw <= 0 {
        dw
    } else {
        0
    };
    let sx: i16 = if offset_w >= i16::MIN as i32 {
        offset_w as i16
    } else {
        i16::MIN
    };
    let sy: i16 = if offset_h >= i16::MIN as i32 {
        offset_h as i16
    } else {
        i16::MIN
    };
    area.shift((sx, sy, 0, 0))
}

/// The first monitor whose work area contains `point`.
pub fn find_containing_monitor(monitors: &Vec<Monitor>, point: (i32, i32)) -> (r: Option<usize>)
    requires
        forall|i: int| 0 <= i < monitors@.len() ==> #[trigger] monitors@[i].wf(),
    ensures
        match r {
            Some(i) => {
                &&& i < monitors@.len()
                &&& monitors@[i as int].spec_workspace().spec_contains(point)
                &&& forall|j: int|
                    0 <= j < i ==> !#[trigger] monitors@[j].spec_workspace().spec_contains(point)
            },
            None => forall|j: int|
                0 <= j < monitors@.len() ==> !#[trigger] monitors@[j].spec_workspace().spec_contains(
                    point,
                ),
        },
{
    let n = monitors.len();
    for i in 0..n
        invariant
            n == monitors@.len(),
            forall|i: int| 0 <= i < monitors@.len() ==> #[trigger] monitors@[i].wf(),
            forall|j: int|
                0 <= j < i ==> !#[trigger] monitors@[j].spec_workspace().spec_contains(point),
    {
        if monitors[i].get_workspace().contains(point) {
            return Some(i);
        }
    }
    None
}

/// The monitor `m` lies beyond `origin` in `direction`, without containing it.
pub open spec fn is_monitor_candidate(m: Monitor, origin: (i32, i32), direction: Direction) -> bool {
    let a = m.spec_workspace();
    let edge = a.edge(direction.spec_opposite());
    &&& !a.spec_contains(origin)
    &&& match direction {
        Direction::Left => edge <= origin.0,
        Direction::Right => edge >= origin.0,
        Direction::Up => edge <= origin.1,
        Direction::Down => edge >= origin.1,
    }
}

/// Distance from `origin` to the middle of the side of `m` that faces it.
pub open spec fn monitor_distance(m: Monitor, origin: (i32, i32), direction: Direction) -> int {
    let c = m.spec_workspace().center_in_direction(direction.spec_opposite());
    spec_distance((c.0 as i32, c.1 as i32), origin)
}

/// The monitor nearest to `origin` among those lying in `direction`: the
/// first one, in the order of `monitors`, at the least distance from the
/// middle of its side that faces `origin`.
pub fn find_nearest_monitor(monitors: &Vec<Monitor>, origin: (i32, i32), direction: Direction) -> (r:
    Option<usize>)
    requires
        forall|i: int| 0 <= i < monitors@.len() ==> #[trigger] monitors@[i].wf(),
    ensures
        match r {
            Some(i) => {
                &&& i < monitors@.len()
                &&& is_monitor_candidate(monitors@[i as int], origin, direction)
                &&& forall|j: int|
                    0 <= j < monitors@.len() && is_monitor_candidate(
                        #[trigger] monitors@[j],
                        origin,
                        direction,
                    ) ==> monitor_distance(monitors@[i as int], origin, direction)
                        <= monitor_distance(monitors@[j], origin, direction)
                &&& forall|j: int|
                    0 <= j < i && is_monitor_candidate(#[trigger] monitors@[j], origin, direction)
                        ==> monitor_distance(monitors@[i as int], origin, direction)
                        < monitor_distance(monitors@[j], origin, direction)
            },
            None => forall|j: int|
                0 <= j < monitors@.len() ==> !is_monitor_candidate(
                    #[trigger] monitors@[j],
                    origin,
                    direction,
                ),
        },
{
    let opp_dir = direction.opposite();
    let n = monitors.len();
    let mut best: Option<usize> = None;
    let mut best_d: u128 = 0;
    for i in 0..n
        invariant
            n == monitors@.len(),
            opp_dir == direction.spec_opposite(),
            forall|i: int| 0 <= i < monitors@.len() ==> #[trigger] monitors@[i].wf(),
            match best {
                Some(b) => {
                    &&& b < i
                    &&& is_monitor_candidate(monitors@[b as int], origin, direction)
                    &&& best_d == monitor_distance(monitors@[b as int], origin, direction)
                    &&& forall|j: int|
                        0 <= j < i && is_monitor_candidate(#[trigger] monitors@[j], origin, direction)
                            ==> best_d <= monitor_distance(monitors@[j], origin, direction)
                    &&& forall|j: int|
                        0 <= j < b && is_monitor_candidate(#[trigger] monitors@[j], origin, direction)
                            ==> best_d < monitor_distance(monitors@[j], origin, direction)
                },
                None => forall|j: int|
                    0 <= j < i ==> !is_monitor_candidate(#[trigger] monitors@[j], origin, direction),
            },
    {
        let area = monitors[i].get_workspace();
        if !area.contains(origin) {
            let edge = area.get_edge(opp_dir);
            let beyond = match direction {
                Direction::Left => edge <= origin.0,
                Direction::Right => edge >= origin.0,
                Direction::Up => edge <= origin.1,
                Direction::Down => edge >= origin.1,
            };
            if beyond {
                let c = area.get_center_in_direction(opp_dir);
                let d = distance(c, origin);
                match best {
                    Some(_) => {
                        if d < best_d {
                            best = Some(i);
                            best_d = d;
                        }
                    },
                    None => {
                        best = Some(i);
                        best_d = d;
                    },
                }
            }
        }
    }
    best
}

} // verus!
