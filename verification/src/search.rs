use vstd::prelude::*;

use crate::containers::ContainerEntry;
use crate::geometry::{Area, Direction, distance, spec_distance};
use crate::result::TilesManagerError;

verus! {

pub open spec fn clamp_int(v: int, lo: int, hi: int) -> int {
    if v < lo {
        lo
    } else if v > hi {
        hi
    } else {
        v
    }
}

/// Distance from `p` to the nearest point of `area` (0 inside it).
pub open spec fn spec_calc_distance(p: (i32, i32), area: Area) -> int {
    let proj = (
        clamp_int(p.0 as int, area.x as int, area.right()),
        clamp_int(p.1 as int, area.y as int, area.bottom()),
    );
    spec_distance(p, (proj.0 as i32, proj.1 as i32))
}

/// Squared distance from `ref_point` to the nearest point of `area`.
pub fn calc_distance(ref_point: (i32, i32), area: Area) -> (d: u128)
    requires
        area.wf(),
    ensures
        d == spec_calc_distance(ref_point, area),
{
    let r = area.get_right_edge();
    let b = area.get_bottom_edge();
    let px = if ref_point.0 < area.x {
        area.x
    } else if ref_point.0 > r {
        r
    } else {
        ref_point.0
    };
    let py = if ref_point.1 < area.y {
        area.y
    } else if ref_point.1 > b {
        b
    } else {
        ref_point.1
    };
    distance(ref_point, (px, py))
}

/// Position of the first container whose area contains `point`.
fn first_containing<K>(containers: &[(K, Area)], point: (i32, i32)) -> (r: Option<usize>)
    requires
        forall|i: int| 0 <= i < containers@.len() ==> (#[trigger] containers@[i]).1.wf(),
    ensures
        match r {
            Some(i) => i < containers@.len() && containers@[i as int].1.spec_contains(point)
                && forall|j: int| 0 <= j < i ==> !(#[trigger] containers@[j]).1.spec_contains(point),
            None => forall|j: int|
                0 <= j < containers@.len() ==> !(#[trigger] containers@[j]).1.spec_contains(point),
        },
{
    let n = containers.len();
    for i in 0..n
        invariant
            n == containers@.len(),
            forall|i: int| 0 <= i < containers@.len() ==> (#[trigger] containers@[i]).1.wf(),
            forall|j: int| 0 <= j < i ==> !(#[trigger] containers@[j]).1.spec_contains(point),
    {
        if containers[i].1.contains(point) {
            return Some(i);
        }
    }
    None
}

/// The first container whose area contains `point`.
pub fn find_at<K>(containers: &[(K, Area)], point: (i32, i32)) -> (r: Result<
    ContainerEntry<&K, Area>,
    TilesManagerError,
>)
    requires
        forall|i: int| 0 <= i < containers@.len() ==> (#[trigger] containers@[i]).1.wf(),
    ensures
        match r {
            Ok(e) => exists|i: int|
                0 <= i < containers@.len() && *e.key == containers@[i].0 && e.value
                    == containers@[i].1 && containers@[i].1.spec_contains(point) && forall|j: int|
                    0 <= j < i ==> !(#[trigger] containers@[j]).1.spec_contains(point),
            Err(e) => e == TilesManagerError::NoContainerAtPoint(point) && forall|j: int|
                0 <= j < containers@.len() ==> !(#[trigger] containers@[j]).1.spec_contains(point),
        },
{
    let n = containers.len();
    for i in 0..n
        invariant
            n == containers@.len(),
            forall|i: int| 0 <= i < containers@.len() ==> (#[trigger] containers@[i]).1.wf(),
            forall|j: int| 0 <= j < i ==> !(#[trigger] containers@[j]).1.spec_contains(point),
    {
        let e = &containers[i];
        if e.1.contains(point) {
            return Ok(ContainerEntry::new(&e.0, e.1));
        }
    }
    Err(TilesManagerError::NoContainerAtPoint(point))
}

/// `i` is, among the containers other than `skip` that `keep` accepts, the
/// first one nearest to `p`.
pub open spec fn is_first_closest<K>(
    s: Seq<(K, Area)>,
    p: (i32, i32),
    keep: spec_fn(Area) -> bool,
    skip: int,
    i: int,
) -> bool {
    &&& 0 <= i < s.len()
    &&& i != skip
    &&& keep(s[i].1)
    &&& forall|j: int|
        0 <= j < s.len() && j != skip && keep(#[trigger] s[j].1) ==> spec_calc_distance(p, s[i].1)
            <= spec_calc_distance(p, s[j].1)
    &&& forall|j: int|
        0 <= j < i && j != skip && keep(#[trigger] s[j].1) ==> spec_calc_distance(p, s[i].1)
            < spec_calc_distance(p, s[j].1)
}

pub open spec fn any_container() -> spec_fn(Area) -> bool {
    |a: Area| true
}

/// The area lies wholly beyond `point` in `direction`.
pub open spec fn lies_beyond(a: Area, direction: Direction, point: (int, int)) -> bool {
    match direction {
        Direction::Right => a.x >= point.0,
        Direction::Down => a.y >= point.1,
        Direction::Left => a.right() <= point.0,
        Direction::Up => a.bottom() <= point.1,
    }
}

pub open spec fn beyond_point(direction: Direction, point: (int, int)) -> spec_fn(Area) -> bool {
    |a: Area| lies_beyond(a, direction, point)
}

/// First nearest container to `p`, skipping position `skip` and, when
/// `direction` is given, the containers not lying beyond `p` in it.
fn closest_index<K>(
    containers: &[(K, Area)],
    p: (i32, i32),
    skip: usize,
    direction: Option<Direction>,
) -> (r: Option<usize>)
    requires
        forall|i: int| 0 <= i < containers@.len() ==> (#[trigger] containers@[i]).1.wf(),
    ensures
        ({
            let keep = match direction {
                Some(d) => beyond_point(d, (p.0 as int, p.1 as int)),
                None => any_container(),
            };
            match r {
                Some(i) => is_first_closest(containers@, p, keep, skip as int, i as int),
                None => forall|j: int|
                    0 <= j < containers@.len() && j != skip ==> !keep(
                        #[trigger] containers@[j].1,
                    ),
            }
        }),
{
    let ghost keep = match direction {
        Some(d) => beyond_point(d, (p.0 as int, p.1 as int)),
        None => any_container(),
    };
    let n = containers.len();
    let mut best: Option<usize> = None;
    let mut best_d: u128 = 0;
    for i in 0..n
        invariant
            n == containers@.len(),
            forall|i: int| 0 <= i < containers@.len() ==> (#[trigger] containers@[i]).1.wf(),
            keep == (match direction {
                Some(d) => beyond_point(d, (p.0 as int, p.1 as int)),
                None => any_container(),
            }),
            match best {
                Some(b) => {
                    &&& b < i
                    &&& b != skip
                    &&& keep(containers@[b as int].1)
                    &&& best_d == spec_calc_distance(p, containers@[b as int].1)
                    &&& forall|j: int|
                        0 <= j < i && j != skip && keep(#[trigger] containers@[j].1) ==> best_d
                            <= spec_calc_distance(p, containers@[j].1)
                    &&& forall|j: int|
                        0 <= j < b && j != skip && keep(#[trigger] containers@[j].1) ==> best_d
                            < spec_calc_distance(p, containers@[j].1)
                },
                None => forall|j: int|
                    0 <= j < i && j != skip ==> !keep(#[trigger] containers@[j].1),
            },
    {
        let a = containers[i].1;
        let accepted = i != skip && match direction {
            Some(Direction::Right) => a.x >= p.0,
            Some(Direction::Down) => a.y >= p.1,
            Some(Direction::Left) => a.get_right_edge() <= p.0,
            Some(Direction::Up) => a.get_bottom_edge() <= p.1,
            None => true,
        };
        assert(accepted == (i != skip && keep(a)));
        if accepted {
            let d = calc_distance(p, a);
            match best {
                Some(_) => {
                    if d < best_d {
                        best = Some(i);
                        best_d = d;
                    }
                },
                None => {
                    best = Some(i);
                    best_d = d;
                },
            }
        }
    }
    best
}

/// The first container nearest to `point`: the one containing it if any.
pub fn find_at_or_near<K>(containers: &[(K, Area)], point: (i32, i32)) -> (r: Result<
    ContainerEntry<&K, Area>,
    TilesManagerError,
>)
    requires
        forall|i: int| 0 <= i < containers@.len() ==> (#[trigger] containers@[i]).1.wf(),
    ensures
        match r {
            Ok(e) => exists|i: int|
                is_first_closest(containers@, point, any_container(), -1, i) && *e.key
                    == containers@[i].0 && e.value == containers@[i].1,
            Err(e) => e == TilesManagerError::NoContainerAtPoint(point) && containers@.len() == 0,
        },
{
    let n = containers.len();
    match closest_index(containers, point, n, None) {
        Some(i) => {
            let e = &containers[i];
            proof {
                let s = containers@;
                assert forall|j: int|
                    0 <= j < s.len() && j != -1 && any_container()(
                        #[trigger] s[j].1,
                    ) implies spec_calc_distance(point, s[i as int].1) <= spec_calc_distance(
                    point,
                    s[j].1,
                ) by {
                    assert(j != n);
                }
                assert forall|j: int|
                    0 <= j < i && j != -1 && any_container()(
                        #[trigger] s[j].1,
                    ) implies spec_calc_distance(point, s[i as int].1) < spec_calc_distance(
                    point,
                    s[j].1,
                ) by {
                    assert(j != n);
                }
                assert(is_first_closest(s, point, any_container(), -1, i as int));
            }
            Ok(ContainerEntry::new(&e.0, e.1))
        },
        None => {
            proof {
                if containers@.len() > 0 {
                    assert(any_container()(containers@[0].1));
                }
            }
            Err(TilesManagerError::NoContainerAtPoint(point))
        },
    }
}

/// The corner of `a` from which the search in `direction` starts.
pub open spec fn start_corner(a: Area, direction: Direction) -> (int, int) {
    match direction {
        Direction::Right => (a.right(), a.y as int),
        Direction::Down => (a.right(), a.bottom()),
        Direction::Left => (a.x as int, a.bottom()),
        Direction::Up => (a.x as int, a.y as int),
    }
}

/// The container closest to the one at `ref_point` in `limit_direction`,
/// ignoring the latter: among the containers lying wholly beyond the
/// corner of the reference container from which the search starts, the
/// first one nearest to that corner.
pub fn find_closest_at<K>(
    containers: &[(K, Area)],
    ref_point: (i32, i32),
    limit_direction: Direction,
) -> (r: Result<ContainerEntry<&K, Area>, TilesManagerError>)
    requires
        forall|i: int| 0 <= i < containers@.len() ==> (#[trigger] containers@[i]).1.wf(),
    ensures
        match r {
            Ok(e) => exists|rf: int, i: int|
                #![trigger containers@[rf], containers@[i]]
                {
                    let s = containers@;
                    let c = start_corner(s[rf].1, limit_direction);
                    &&& 0 <= rf < s.len()
                    &&& s[rf].1.spec_contains(ref_point)
                    &&& forall|j: int| 0 <= j < rf ==> !(#[trigger] s[j]).1.spec_contains(ref_point)
                    &&& is_first_closest(
                        s,
                        (c.0 as i32, c.1 as i32),
                        beyond_point(limit_direction, c),
                        rf,
                        i,
                    )
                    &&& *e.key == s[i].0
                    &&& e.value == s[i].1
                },
            Err(TilesManagerError::NoContainerAtPoint(p)) => {
                let s = containers@;
                (p == ref_point && forall|j: int|
                    0 <= j < s.len() ==> !(#[trigger] s[j]).1.spec_contains(ref_point)) || exists|
                    rf: int,
                |
                    #![trigger containers@[rf]]
                    {
                        let c = start_corner(s[rf].1, limit_direction);
                        &&& 0 <= rf < s.len()
                        &&& s[rf].1.spec_contains(ref_point)
                        &&& forall|j: int|
                            0 <= j < rf ==> !(#[trigger] s[j]).1.spec_contains(ref_point)
                        &&& p.0 == c.0 && p.1 == c.1
                        &&& forall|j: int|
                            0 <= j < s.len() && j != rf ==> !beyond_point(limit_direction, c)(
                                #[trigger] s[j].1,
                            )
                    }
            },
            Err(_) => false,
        },
{
    let rf = match first_containing(containers, ref_point) {
        Some(i) => i,
        None => {
            return Err(TilesManagerError::NoContainerAtPoint(ref_point));
        },
    };
    let ref_area = containers[rf].1;
    let point = match limit_direction {
        Direction::Right => ref_area.get_ne_corner(),
        Direction::Down => ref_area.get_se_corner(),
        Direction::Left => ref_area.get_sw_corner(),
        Direction::Up => ref_area.get_nw_corner(),
    };
    let ghost c = start_corner(ref_area, limit_direction);
    assert(point.0 == c.0 && point.1 == c.1);
    match closest_index(containers, point, rf, Some(limit_direction)) {
        Some(i) => {
            let e = &containers[i];
            assert(c == (point.0 as int, point.1 as int));
            let ghost t1 = containers@[rf as int];
            let ghost t2 = containers@[i as int];
            Ok(ContainerEntry::new(&e.0, e.1))
        },
        None => {
            assert(c == (point.0 as int, point.1 as int));
            let ghost t1 = containers@[rf as int];
            Err(TilesManagerError::NoContainerAtPoint(point))
        },
    }
}

} // verus!
