use vstd::prelude::*;

use crate::geometry::{Area, Direction, Orientation, distance, spec_distance};
use crate::window::WindowRef;

verus! {

broadcast use vstd::seq_lib::group_seq_properties;

/// A window of a layout tree with the area it is given.
#[derive(Clone, Copy, Debug, PartialEq, Eq, Structural)]
pub struct AreaLeaf<T> {
    pub id: T,
    pub viewbox: Area,
}

/// An order of leaves: by top edge, by left edge or by surface.
#[derive(Clone, Copy, Debug, PartialEq, Eq, Structural)]
pub enum LeafOrder {
    ByTop,
    ByLeft,
    BySurface,
}

/// Leaves found along a horizontal side are ordered by their top edge,
/// those along a vertical side by their left edge.
pub open spec fn order_of(axis: Orientation) -> LeafOrder {
    match axis {
        Orientation::Horizontal => LeafOrder::ByTop,
        Orientation::Vertical => LeafOrder::ByLeft,
    }
}

pub open spec fn leaf_key(l: AreaLeaf<WindowRef>, order: LeafOrder) -> int {
    match order {
        LeafOrder::ByTop => l.viewbox.y as int,
        LeafOrder::ByLeft => l.viewbox.x as int,
        LeafOrder::BySurface => l.viewbox.width * l.viewbox.height,
    }
}

fn exec_leaf_key(l: &AreaLeaf<WindowRef>, order: LeafOrder) -> (k: i64)
    ensures
        k == leaf_key(*l, order),
{
    match order {
        LeafOrder::ByTop => l.viewbox.y as i64,
        LeafOrder::ByLeft => l.viewbox.x as i64,
        LeafOrder::BySurface => l.viewbox.calc_area() as i64,
    }
}

pub open spec fn key_is(order: LeafOrder, k: int) -> spec_fn(AreaLeaf<WindowRef>) -> bool {
    |l: AreaLeaf<WindowRef>| leaf_key(l, order) == k
}

pub open spec fn sorted_by_key(s: Seq<AreaLeaf<WindowRef>>, order: LeafOrder) -> bool {
    forall|i: int, j: int| 0 <= i < j < s.len() ==> leaf_key(s[i], order) <= leaf_key(s[j], order)
}

/// `a` and `b` hold, for every key, the same leaves in the same order: with
/// `a` sorted, `a` is the stable sort of `b`.
pub open spec fn same_per_key(
    a: Seq<AreaLeaf<WindowRef>>,
    b: Seq<AreaLeaf<WindowRef>>,
    order: LeafOrder,
) -> bool {
    forall|k: int| #[trigger] a.filter(key_is(order, k)) == b.filter(key_is(order, k))
}

/// The leaf lies along the side of a neighbour given by `edge`: it overlaps
/// the side and is crossed by the line of the side.
pub open spec fn limited_by_edge(
    l: AreaLeaf<WindowRef>,
    direction: Direction,
    edge: [(i32, i32); 2],
) -> bool {
    match direction.spec_axis() {
        Orientation::Horizontal => l.viewbox.spec_overlaps_y(edge[0].1 as int, edge[1].1 as int)
            && l.viewbox.spec_contains_x(edge[0].0 as int),
        Orientation::Vertical => l.viewbox.spec_overlaps_x(edge[0].0 as int, edge[1].0 as int)
            && l.viewbox.spec_contains_y(edge[0].1 as int),
    }
}

pub open spec fn edge_filter(direction: Direction, edge: [(i32, i32); 2]) -> spec_fn(
    AreaLeaf<WindowRef>,
) -> bool {
    |l: AreaLeaf<WindowRef>| limited_by_edge(l, direction, edge)
}

/// Inserts `x` into the sorted `s` after the leaves whose key is not
/// greater, keeping `s` sorted and every key's leaves in order.
fn insert_sorted(
    s: &mut Vec<AreaLeaf<WindowRef>>,
    x: AreaLeaf<WindowRef>,
    axis: LeafOrder,
)
    requires
        sorted_by_key(old(s)@, axis),
    ensures
        sorted_by_key(final(s)@, axis),
        final(s)@.len() == old(s)@.len() + 1,
        forall|k: int| #[trigger]
            final(s)@.filter(key_is(axis, k)) == old(s)@.push(x).filter(key_is(axis, k)),
{
    let kx = exec_leaf_key(&x, axis);
    let mut p = s.len();
    while p > 0
        invariant
            p <= s@.len(),
            s@ == old(s)@,
            sorted_by_key(s@, axis),
            forall|q: int| p <= q < s@.len() ==> leaf_key(#[trigger] s@[q], axis) > kx,
        ensures
            p <= s@.len(),
            s@ == old(s)@,
            p == 0 || leaf_key(s@[p - 1], axis) <= kx,
            forall|q: int| p <= q < s@.len() ==> leaf_key(#[trigger] s@[q], axis) > kx,
        decreases p,
    {
        let prev = s[p - 1];
        let kp = exec_leaf_key(&prev, axis);
        if kp <= kx {
            break;
        }
        p = p - 1;
    }
    proof {
        assert forall|q: int| 0 <= q < p implies leaf_key(#[trigger] s@[q], axis) <= kx by {
            if q < p - 1 {
                assert(leaf_key(s@[q], axis) <= leaf_key(s@[p - 1], axis));
            }
        }
    }
    let ghost s0 = s@;
    s.insert(p, x);
    proof {
        let t = s@;
        let pi = p as int;
        s0.insert_ensures(pi, x);
        assert forall|i: int, j: int| 0 <= i < j < t.len() implies leaf_key(t[i], axis)
            <= leaf_key(t[j], axis) by {
            let a = if i < pi { i } else if i == pi { -1 } else { i - 1 };
            let b = if j < pi { j } else if j == pi { -1 } else { j - 1 };
            if a >= 0 && b >= 0 {
                assert(leaf_key(s0[a], axis) <= leaf_key(s0[b], axis));
            }
        }
        let front = s0.subrange(0, pi);
        let back = s0.subrange(pi, s0.len() as int);
        assert(t =~= front.push(x) + back);
        assert(s0 =~= front + back);
        assert forall|k: int| #[trigger] t.filter(key_is(axis, k)) == s0.push(x).filter(
            key_is(axis, k),
        ) by {
            let f = key_is(axis, k);
            Seq::filter_distributes_over_add(front.push(x), back, f);
            Seq::filter_distributes_over_add(front, back, f);
            front.lemma_filter_push(x, f);
            s0.lemma_filter_push(x, f);
            if leaf_key(x, axis) == k {
                assert forall|q: int| 0 <= q < back.len() implies !f(#[trigger] back[q]) by {
                    assert(s0[pi + q] == back[q]);
                }
                back.lemma_all_neg_filter_empty(f);
                assert(back.filter(f) =~= Seq::<AreaLeaf<WindowRef>>::empty());
                assert(t.filter(f) =~= s0.push(x).filter(f));
            } else {
                assert(t.filter(f) =~= s0.push(x).filter(f));
            }
        }
    }
}

/// The leaves sorted by `order`; leaves with the same key keep their order.
pub fn sort_leaves(leaves: &Vec<AreaLeaf<WindowRef>>, order: LeafOrder) -> (r: Vec<
    AreaLeaf<WindowRef>,
>)
    ensures
        sorted_by_key(r@, order),
        same_per_key(r@, leaves@, order),
        r@.len() == leaves@.len(),
{
    let mut sorted: Vec<AreaLeaf<WindowRef>> = Vec::new();
    let n = leaves.len();
    assert(sorted@ =~= leaves@.subrange(0, 0));
    for i in 0..n
        invariant
            n == leaves@.len(),
            sorted_by_key(sorted@, order),
            same_per_key(sorted@, leaves@.subrange(0, i as int), order),
            sorted@.len() == i,
    {
        let l = leaves[i];
        let ghost before = sorted@;
        insert_sorted(&mut sorted, l, order);
        proof {
            let pre = leaves@.subrange(0, i as int);
            assert(leaves@.subrange(0, i + 1) =~= pre.push(l));
            assert forall|k: int| #[trigger] sorted@.filter(key_is(order, k)) == leaves@.subrange(
                0,
                i + 1,
            ).filter(key_is(order, k)) by {
                let g = key_is(order, k);
                before.lemma_filter_push(l, g);
                pre.lemma_filter_push(l, g);
            }
        }
    }
    assert(leaves@.subrange(0, n as int) =~= leaves@);
    sorted
}

/// The leaves along the side `edge` of a neighbour in `direction`, sorted
/// by their top edge (horizontal direction) or left edge (vertical
/// direction); leaves with the same key keep their order.
pub fn leaves_limited_by_edge(
    windows: &[AreaLeaf<WindowRef>],
    direction: Direction,
    edge: [(i32, i32); 2],
) -> (r: Vec<AreaLeaf<WindowRef>>)
    requires
        forall|i: int| 0 <= i < windows@.len() ==> (#[trigger] windows@[i]).viewbox.wf(),
    ensures
        sorted_by_key(r@, order_of(direction.spec_axis())),
        same_per_key(
            r@,
            windows@.filter(edge_filter(direction, edge)),
            order_of(direction.spec_axis()),
        ),
{
    let dir_axis = direction.axis();
    let order = match dir_axis {
        Orientation::Horizontal => LeafOrder::ByTop,
        Orientation::Vertical => LeafOrder::ByLeft,
    };
    let (lim1, lim2, axis_value) = match dir_axis {
        Orientation::Vertical => (edge[0].0, edge[1].0, edge[0].1),
        Orientation::Horizontal => (edge[0].1, edge[1].1, edge[0].0),
    };
    let ghost f = edge_filter(direction, edge);
    let mut leaves: Vec<AreaLeaf<WindowRef>> = Vec::new();
    let ghost mut kept: Seq<AreaLeaf<WindowRef>> = Seq::empty();
    let n = windows.len();
    for i in 0..n
        invariant
            n == windows@.len(),
            forall|i: int| 0 <= i < windows@.len() ==> (#[trigger] windows@[i]).viewbox.wf(),
            dir_axis == direction.spec_axis(),
            dir_axis == Orientation::Vertical ==> lim1 == edge[0].0 && lim2 == edge[1].0
                && axis_value == edge[0].1,
            dir_axis == Orientation::Horizontal ==> lim1 == edge[0].1 && lim2 == edge[1].1
                && axis_value == edge[0].0,
            f == edge_filter(direction, edge),
            order == order_of(dir_axis),
            kept == windows@.subrange(0, i as int).filter(f),
            sorted_by_key(leaves@, order),
            same_per_key(leaves@, kept, order),
    {
        let l = windows[i];
        let keep = match dir_axis {
            Orientation::Horizontal => l.viewbox.overlaps_y(lim1, lim2) && l.viewbox.contains_x(
                axis_value,
            ),
            Orientation::Vertical => l.viewbox.overlaps_x(lim1, lim2) && l.viewbox.contains_y(
                axis_value,
            ),
        };
        assert(keep == f(l));
        proof {
            assert(windows@.subrange(0, i + 1) =~= windows@.subrange(0, i as int).push(l));
            windows@.subrange(0, i as int).lemma_filter_push(l, f);
        }
        if keep {
            let ghost before = leaves@;
            insert_sorted(&mut leaves, l, order);
            proof {
                assert forall|k: int| #[trigger] leaves@.filter(key_is(order, k))
                    == kept.push(l).filter(key_is(order, k)) by {
                    let g = key_is(order, k);
                    before.lemma_filter_push(l, g);
                    kept.lemma_filter_push(l, g);
                    assert(before.filter(g) == kept.filter(g));
                }
                kept = kept.push(l);
            }
        }
    }
    proof {
        assert(windows@.subrange(0, n as int) =~= windows@);
    }
    leaves
}

/// The center of `c` lies beyond `edge` in `direction`.
pub open spec fn center_beyond(c: (int, int), direction: Direction, edge: int) -> bool {
    match direction {
        Direction::Left => c.0 < edge,
        Direction::Right => c.0 > edge,
        Direction::Up => c.1 < edge,
        Direction::Down => c.1 > edge,
    }
}

pub open spec fn center_distance(a: Area, from: (i32, i32)) -> int {
    spec_distance((a.center().0 as i32, a.center().1 as i32), from)
}

/// `i` is the first candidate among those that `keep` accepts whose center
/// is nearest to `from`.
pub open spec fn is_first_nearest<K>(
    s: Seq<(K, Area)>,
    from: (i32, i32),
    keep: spec_fn(Area) -> bool,
    i: int,
) -> bool {
    &&& 0 <= i < s.len()
    &&& keep(s[i].1)
    &&& forall|j: int|
        0 <= j < s.len() && keep(#[trigger] s[j].1) ==> center_distance(s[i].1, from)
            <= center_distance(s[j].1, from)
    &&& forall|j: int|
        0 <= j < i && keep(#[trigger] s[j].1) ==> center_distance(s[i].1, from) < center_distance(
            s[j].1,
            from,
        )
}

pub open spec fn beyond_filter(direction: Direction, edge: int) -> spec_fn(Area) -> bool {
    |a: Area| center_beyond(a.center(), direction, edge)
}

pub open spec fn any_area() -> spec_fn(Area) -> bool {
    |a: Area| true
}

/// The first candidate nearest to `from`, among those beyond `edge` in
/// `direction` when `only_beyond` holds, else among all.
fn nearest_index<K: Copy>(
    candidates: &[(K, Area)],
    from: (i32, i32),
    direction: Direction,
    edge: i32,
    only_beyond: bool,
) -> (r: Option<usize>)
    requires
        forall|i: int| 0 <= i < candidates@.len() ==> (#[trigger] candidates@[i]).1.wf(),
    ensures
        match r {
            Some(i) => is_first_nearest(
                candidates@,
                from,
                if only_beyond {
                    beyond_filter(direction, edge as int)
                } else {
                    any_area()
                },
                i as int,
            ),
            None => forall|j: int|
                0 <= j < candidates@.len() ==> !(if only_beyond {
                    beyond_filter(direction, edge as int)
                } else {
                    any_area()
                })(#[trigger] candidates@[j].1),
        },
{
    let ghost keep = if only_beyond {
        beyond_filter(direction, edge as int)
    } else {
        any_area()
    };
    let n = candidates.len();
    let mut best: Option<usize> = None;
    let mut best_d: u128 = 0;
    for i in 0..n
        invariant
            n == candidates@.len(),
            forall|i: int| 0 <= i < candidates@.len() ==> (#[trigger] candidates@[i]).1.wf(),
            keep == (if only_beyond {
                beyond_filter(direction, edge as int)
            } else {
                any_area()
            }),
            match best {
                Some(b) => {
                    &&& b < i
                    &&& keep(candidates@[b as int].1)
                    &&& best_d == center_distance(candidates@[b as int].1, from)
                    &&& forall|j: int|
                        0 <= j < i && keep(#[trigger] candidates@[j].1) ==> best_d
                            <= center_distance(candidates@[j].1, from)
                    &&& forall|j: int|
                        0 <= j < b && keep(#[trigger] candidates@[j].1) ==> best_d
                            < center_distance(candidates@[j].1, from)
                },
                None => forall|j: int| 0 <= j < i ==> !keep(#[trigger] candidates@[j].1),
            },
    {
        let a = candidates[i].1;
        let c = a.get_center();
        let accepted = if only_beyond {
            match direction {
                Direction::Left => c.0 < edge,
                Direction::Right => c.0 > edge,
                Direction::Up => c.1 < edge,
                Direction::Down => c.1 > edge,
            }
        } else {
            true
        };
        assert(accepted == keep(a));
        if accepted {
            let d = distance(c, from);
            match best {
                Some(_) => {
                    if d < best_d {
                        best = Some(i);
                        best_d = d;
                    }
                },
                None => {
                    best = Some(i);
                    best_d = d;
                },
            }
        }
    }
    best
}

/// The candidate to move the focus to from `src_area` in `direction`: the
/// first one nearest to the center of `src_area` among those whose center
/// lies beyond the side of `src_area` facing `direction`, else the first
/// one nearest to that center among all.
pub fn find_nearest_candidate<K: Copy>(
    src_area: &Area,
    direction: Direction,
    candidates: &[(K, Area)],
) -> (r: Option<(K, Area)>)
    requires
        src_area.wf(),
        forall|i: int| 0 <= i < candidates@.len() ==> (#[trigger] candidates@[i]).1.wf(),
    ensures
        ({
            let from = (src_area.center().0 as i32, src_area.center().1 as i32);
            let beyond = beyond_filter(direction, src_area.edge(direction));
            match r {
                Some(e) => exists|i: int|
                    {
                        &&& candidates@[i] == e
                        &&& if exists|j: int|
                            0 <= j < candidates@.len() && beyond(#[trigger] candidates@[j].1) {
                            is_first_nearest(candidates@, from, beyond, i)
                        } else {
                            is_first_nearest(candidates@, from, any_area(), i)
                        }
                    },
                None => candidates@.len() == 0,
            }
        }),
{
    let center = src_area.get_center();
    let edge = src_area.get_edge(direction);
    let nearest = nearest_index(candidates, center, direction, edge, true);
    let nearest = match nearest {
        Some(i) => Some(i),
        None => nearest_index(candidates, center, direction, edge, false),
    };
    match nearest {
        Some(i) => {
            let e = candidates[i];
            Some((e.0, e.1))
        },
        None => {
            proof {
                if candidates@.len() > 0 {
                    assert(any_area()(candidates@[0].1));
                }
            }
            None
        },
    }
}

} // verus!
