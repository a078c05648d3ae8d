use vstd::prelude::*;
use vstd::std_specs::cmp::PartialEqSpec;
use vstd::std_specs::convert::FromSpec;
use vstd::multiset::Multiset;

use crate::containers::{ActiveContainerKey, ContainerKey, CrossLayerContainerKey};
use crate::dispatcher::{RegistryModel, has_sub};
use crate::containers::ContainerLayer;
use crate::floating::spec_corrective_pad;
use crate::tm::{cycle_candidates, cycled, cycles_layer, first_position, is_win, not_in, not_win, spec_cycle_target};
use crate::window::WindowRef;
use crate::geometry::{Area, Direction, Orientation};
use crate::utils::{AreaLeaf, center_beyond, limited_by_edge};
use crate::tm::{spec_focused_resize_padding, spec_resize_steps};
use crate::commands::{MondrianMessage, TMCommand, TMOperation, spec_command_of, spec_command_plan};
use crate::monitor::{
    Monitor, by_hw_id, first_min, is_first_min, lemma_first_min_exists, lemma_str_lt_irrefl,
    lemma_str_lt_trans, str_lt,
};

verus! {

/// A container key turned into a cross-layer key and back is the same key.
pub proof fn law_cross_layer_round_trip(k: ContainerKey)
    ensures
        <ContainerKey as FromSpec<CrossLayerContainerKey>>::from_spec(
            <CrossLayerContainerKey as FromSpec<ContainerKey>>::from_spec(k),
        ) == k,
{
}

/// An active key turned into a container key and back is the same key; a
/// container key turned into an active key and back keeps its desktop and
/// monitor and names the normal layer.
pub proof fn law_active_key_round_trip(a: ActiveContainerKey, k: ContainerKey)
    ensures
        <ActiveContainerKey as FromSpec<ContainerKey>>::from_spec(
            <ContainerKey as FromSpec<ActiveContainerKey>>::from_spec(a),
        ) == a,
        <ContainerKey as FromSpec<ActiveContainerKey>>::from_spec(
            <ActiveContainerKey as FromSpec<ContainerKey>>::from_spec(k),
        ) == (ContainerKey { vd: k.vd, monitor: k.monitor, layer: ContainerLayer::Normal }),
{
}

/// Two container keys give equal cross-layer keys exactly when they are of
/// the same virtual desktop and monitor, whatever their layers.
pub proof fn law_cross_layer_ignores_layer(a: ContainerKey, b: ContainerKey)
    ensures
        <CrossLayerContainerKey as FromSpec<ContainerKey>>::from_spec(a).eq_spec(
            &<CrossLayerContainerKey as FromSpec<ContainerKey>>::from_spec(b),
        ) <==> (a.vd == b.vd && a.monitor@ == b.monitor@),
{
}

/// The corrective padding of a dimension smaller than the minimum brings it
/// to the minimum, and leaves a large enough dimension as it is.
pub proof fn law_corrective_pad_reaches_min(min_dim: i16, dim: i16)
    requires
        min_dim - dim <= i16::MAX,
    ensures
        dim - spec_corrective_pad(min_dim, dim).0 - spec_corrective_pad(min_dim, dim).1 == (if dim
            >= min_dim {
            dim as int
        } else {
            min_dim as int
        }),
{
}

/// Adding a handler keeps an event registry valid.
pub proof fn law_add_keeps_valid(m: RegistryModel, events: Seq<u32>)
    requires
        m.valid(),
        m.next_key < u32::MAX,
    ensures
        m.after_add(events).valid(),
{
    let a = m.after_add(events);
    assert forall|e: u32| #[trigger] a.hooked.contains(e) <==> has_sub(a.subscriptions, e) by {
        if events.contains(e) {
            assert(a.subscriptions.contains((e, m.next_key)));
        } else {
            if has_sub(a.subscriptions, e) {
                let k = choose|k: u32| #[trigger] a.subscriptions.contains((e, k));
                assert(m.subscriptions.contains((e, k)));
            }
            if has_sub(m.subscriptions, e) {
                let k = choose|k: u32| #[trigger] m.subscriptions.contains((e, k));
                assert(a.subscriptions.contains((e, k)));
            }
        }
    }
}

/// Removing a handler keeps an event registry valid.
pub proof fn law_remove_keeps_valid(m: RegistryModel, id: u32, events: Seq<u32>)
    requires
        m.valid(),
    ensures
        m.after_remove(id, events).valid(),
{
    if m.handlers.contains(id) {
        let r = m.after_remove(id, events);
        let w = m.subscriptions_without(id, events);
        assert forall|e: u32| #[trigger] r.hooked.contains(e) <==> has_sub(r.subscriptions, e) by {
            if has_sub(w, e) {
                let k = choose|k: u32| #[trigger] w.contains((e, k));
                assert(m.subscriptions.contains((e, k)));
            }
            if !events.contains(e) && has_sub(m.subscriptions, e) {
                let k = choose|k: u32| #[trigger] m.subscriptions.contains((e, k));
                assert(w.contains((e, k)));
            }
        }
    }
}

/// A handler just added receives each of the events it manages, besides
/// the handlers that received them before; other events go to the same
/// handlers as before.
pub proof fn law_added_handler_receives(m: RegistryModel, events: Seq<u32>, e: u32)
    requires
        m.valid(),
        m.next_key < u32::MAX,
    ensures
        m.after_add(events).receivers(e) == (if events.contains(e) {
            m.receivers(e).insert(m.next_key)
        } else {
            m.receivers(e)
        }),
{
    assert(!m.handlers.contains(m.next_key));
    assert(!m.subscriptions.contains((e, m.next_key)));
    assert(m.after_add(events).receivers(e) =~= (if events.contains(e) {
        m.receivers(e).insert(m.next_key)
    } else {
        m.receivers(e)
    }));
}

/// A removed handler receives no event any more.
pub proof fn law_removed_handler_receives_nothing(
    m: RegistryModel,
    id: u32,
    events: Seq<u32>,
    e: u32,
)
    requires
        m.handlers.contains(id),
    ensures
        !m.after_remove(id, events).receivers(e).contains(id),
{
}

/// Adding a handler and removing it again, with the same events, leaves
/// the subscriptions, the hooks and the handlers as they were; only the
/// next key has moved on.
pub proof fn law_add_then_remove(m: RegistryModel, events: Seq<u32>)
    requires
        m.valid(),
        m.next_key < u32::MAX,
    ensures
        m.after_add(events).after_remove(m.next_key, events) == (RegistryModel {
            next_key: (m.next_key + 1) as u32,
            ..m
        }),
{
    let a = m.after_add(events);
    let r = a.after_remove(m.next_key, events);
    assert(a.handlers.contains(m.next_key));
    assert(r.subscriptions =~= m.subscriptions);
    assert(r.handlers =~= m.handlers);
    assert forall|e: u32| #[trigger] r.hooked.contains(e) <==> m.hooked.contains(e) by {
        if events.contains(e) {
            assert(a.subscriptions.contains((e, m.next_key)));
            if has_sub(r.subscriptions, e) {
                let k = choose|k: u32| #[trigger] r.subscriptions.contains((e, k));
                assert(m.subscriptions.contains((e, k)));
            }
            if has_sub(m.subscriptions, e) {
                let k = choose|k: u32| #[trigger] m.subscriptions.contains((e, k));
                assert(a.subscriptions_without(m.next_key, events).contains((e, k)));
            }
        }
    }
    assert(r.hooked =~= m.hooked);
}

/// Ordering monitors by hardware id keeps every monitor, and puts none
/// before one with a smaller hardware id.
pub proof fn law_monitors_ordered_by_hw_id(s: Seq<Monitor>)
    ensures
        by_hw_id(s).to_multiset() == s.to_multiset(),
        forall|i: int, j: int|
            0 <= i < j < by_hw_id(s).len() ==> !str_lt(
                #[trigger] by_hw_id(s)[j].hw_id@,
                #[trigger] by_hw_id(s)[i].hw_id@,
            ),
    decreases s.len(),
{
    broadcast use vstd::multiset::group_multiset_axioms;
    broadcast use vstd::seq_lib::group_seq_properties;

    if s.len() == 0 {
        assert(by_hw_id(s) =~= Seq::<Monitor>::empty());
        assert(s.to_multiset() =~= Multiset::<Monitor>::empty());
        assert(by_hw_id(s).to_multiset() =~= Multiset::<Monitor>::empty());
    } else {
        lemma_first_min_exists(s);
        let i = first_min(s);
        let rest = s.remove(i);
        let r = by_hw_id(s);
        let tail = by_hw_id(rest);
        law_monitors_ordered_by_hw_id(rest);
        assert(r == seq![s[i]] + tail);
        vstd::seq_lib::lemma_multiset_commutative(seq![s[i]], tail);
        vstd::seq_lib::to_multiset_remove(s, i);
        assert(seq![s[i]].to_multiset() =~= Multiset::<Monitor>::empty().insert(s[i])) by {
            assert(seq![s[i]] =~= Seq::<Monitor>::empty().push(s[i]));
            vstd::seq_lib::to_multiset_build(Seq::<Monitor>::empty(), s[i]);
            assert(Seq::<Monitor>::empty().to_multiset() =~= Multiset::<Monitor>::empty());
        }
        assert(s.to_multiset().count(s[i]) > 0) by {
            vstd::seq_lib::to_multiset_contains(s, s[i]);
        }
        assert(r.to_multiset() =~= s.to_multiset());
        // Every monitor after the first comes from the rest, which holds no
        // monitor with a hardware id before that of the first.
        assert forall|y: Monitor| tail.contains(y) implies !str_lt(y.hw_id@, s[i].hw_id@) by {
            vstd::seq_lib::to_multiset_contains(tail, y);
            vstd::seq_lib::to_multiset_contains(rest, y);
            let k = choose|k: int| 0 <= k < rest.len() && rest[k] == y;
            let k0 = if k < i {
                k
            } else {
                k + 1
            };
            assert(s[k0] == y);
            if k0 < i {
                assert(str_lt(s[i].hw_id@, s[k0].hw_id@));
                if str_lt(y.hw_id@, s[i].hw_id@) {
                    lemma_str_lt_trans(y.hw_id@, s[i].hw_id@, y.hw_id@);
                    lemma_str_lt_irrefl(y.hw_id@);
                }
            }
        }
        assert forall|a: int, b: int| 0 <= a < b < r.len() implies !str_lt(
            #[trigger] r[b].hw_id@,
            #[trigger] r[a].hw_id@,
        ) by {
            if a == 0 {
                assert(r[b] == tail[b - 1]);
                assert(tail.contains(tail[b - 1]));
            } else {
                assert(r[a] == tail[a - 1]);
                assert(r[b] == tail[b - 1]);
            }
        }
    }
}

proof fn lemma_filter_same<A>(t: Seq<A>, a: spec_fn(A) -> bool, b: spec_fn(A) -> bool)
    requires
        forall|i: int| 0 <= i < t.len() ==> a(#[trigger] t[i]) == b(t[i]),
    ensures
        t.filter(a) == t.filter(b),
    decreases t.len(),
{
    if t.len() > 0 {
        let u = t.drop_last();
        assert(t =~= u.push(t.last()));
        assert forall|i: int| 0 <= i < u.len() implies a(#[trigger] u[i]) == b(u[i]) by {
            assert(u[i] == t[i]);
        }
        lemma_filter_same(u, a, b);
        u.lemma_filter_push(t.last(), a);
        u.lemma_filter_push(t.last(), b);
    }
}

proof fn lemma_filter_two<A>(s: Seq<A>, pred: spec_fn(A) -> bool, j: int, k: int)
    requires
        0 <= j < k < s.len(),
        pred(s[j]),
        pred(s[k]),
    ensures
        s.filter(pred).len() >= 2,
    decreases s.len(),
{
    let t = s.drop_last();
    assert(s =~= t.push(s.last()));
    t.lemma_filter_push(s.last(), pred);
    if k == s.len() - 1 {
        assert(t[j] == s[j]);
        t.lemma_filter_contains(pred, j);
    } else {
        assert(t[j] == s[j] && t[k] == s[k]);
        lemma_filter_two(t, pred, j, k);
        t.lemma_filter_len(pred);
    }
}

proof fn lemma_filter_no_dup<A>(s: Seq<A>, pred: spec_fn(A) -> bool)
    requires
        s.no_duplicates(),
    ensures
        s.filter(pred).no_duplicates(),
    decreases s.len(),
{
    if s.len() > 0 {
        let t = s.drop_last();
        let x = s.last();
        assert(s =~= t.push(x));
        assert(t.no_duplicates());
        lemma_filter_no_dup(t, pred);
        t.lemma_filter_push(x, pred);
        if pred(x) {
            let f = t.filter(pred);
            assert(!f.contains(x)) by {
                if f.contains(x) {
                    t.lemma_filter_contains_rev(pred, x);
                    let j = choose|j: int| 0 <= j < t.len() && t[j] == x;
                    assert(s[j] == s[s.len() - 1]);
                }
            }
            assert forall|a: int, b: int| 0 <= a < b < f.push(x).len() implies f.push(x)[a] != f.push(
                x,
            )[b] by {
                if b == f.len() {
                    assert(f.push(x)[a] == f[a]);
                }
            }
        }
    }
}

/// Swapping the only occurrence of `f` for `g`, in a sequence holding
/// neither anywhere else, swaps them in the filters too.
proof fn lemma_filter_swap(s: Seq<WindowRef>, p: int, f: WindowRef, g: WindowRef)
    requires
        0 <= p < s.len(),
        s[p] == f,
        f != g,
        forall|j: int| 0 <= j < s.len() && j != p ==> #[trigger] s[j] != f && s[j] != g,
    ensures
        s.update(p, g).filter(not_win(g)) == s.filter(not_win(f)),
        s.update(p, g).filter(is_win(g)).len() == 1,
    decreases s.len(),
{
    let t = s.drop_last();
    let x = s.last();
    let u = s.update(p, g);
    assert(s =~= t.push(x));
    if p == s.len() - 1 {
        assert(u =~= t.push(g));
        t.lemma_filter_push(g, not_win(g));
        t.lemma_filter_push(x, not_win(f));
        t.lemma_filter_push(g, is_win(g));
        assert forall|i: int| 0 <= i < t.len() implies not_win(g)(#[trigger] t[i]) == not_win(f)(t[i]) by {
            assert(t[i] == s[i]);
        }
        lemma_filter_same(t, not_win(g), not_win(f));
        assert forall|i: int| 0 <= i < t.len() implies is_win(g)(#[trigger] t[i]) == (|w: WindowRef| false)(t[i]) by {
            assert(t[i] == s[i]);
        }
        lemma_filter_same(t, is_win(g), |w: WindowRef| false);
        t.lemma_all_neg_filter_empty(|w: WindowRef| false);
    } else {
        assert forall|j: int| 0 <= j < t.len() && j != p implies #[trigger] t[j] != f && t[j] != g by {
            assert(t[j] == s[j]);
        }
        lemma_filter_swap(t, p, f, g);
        assert(u =~= t.update(p, g).push(x));
        t.update(p, g).lemma_filter_push(x, not_win(g));
        t.lemma_filter_push(x, not_win(f));
        t.update(p, g).lemma_filter_push(x, is_win(g));
    }
}

/// Cycling the focalized windows of a container one way, then the other way
/// from the window that took the place of the first one, gives the first
/// window back; the windows of the normal layer are distinct, as in a tree.
pub proof fn law_cycle_round_trip(
    layer: ContainerLayer,
    half: Option<bool>,
    current: Seq<WindowRef>,
    normal: Seq<WindowRef>,
    f: WindowRef,
    g: WindowRef,
    next: bool,
    p: int,
)
    requires
        normal.no_duplicates(),
        0 <= p < current.len(),
        current[p] == f,
        spec_cycle_target(layer, half, current, normal, f, next) == Ok::<
            Option<(WindowRef, WindowRef)>,
            crate::result::TilesManagerError,
        >(Some((f, g))),
    ensures
        spec_cycle_target(layer, half, current.update(p, g), normal, g, !next) == Ok::<
            Option<(WindowRef, WindowRef)>,
            crate::result::TilesManagerError,
        >(Some((g, f))),
{
    let others = current.filter(not_win(f));
    let allowed: nat = if layer == ContainerLayer::HalfFocalized {
        1
    } else {
        0
    };
    let wins = cycle_candidates(current, normal, f);
    assert({
        &&& cycles_layer(layer, half)
        &&& current.filter(is_win(f)).len() == 1
        &&& others.len() == allowed
        &&& wins.contains(f)
        &&& cycled(wins, f, next) == g
        &&& g != f
    }) by {
        reveal(spec_cycle_target);
    }
    lemma_filter_no_dup(normal, not_in(others));
    assert(wins.no_duplicates());
    let l = wins.len() as int;
    let k = choose|k: int| 0 <= k < wins.len() && wins[k] == f;
    assert(forall|j: int| 0 <= j < k ==> wins[j] != f);
    let i = first_position(wins, f);
    let n = (if next {
        i + 1
    } else {
        i - 1
    }) % l;
    assert(0 <= i < l && wins[i] == f && forall|j: int| 0 <= j < i ==> wins[j] != f);
    assert(0 <= n < l) by {
        vstd::arithmetic::div_mod::lemma_mod_bound(if next {
            i + 1
        } else {
            i - 1
        }, l);
    }
    assert(wins[n] == g);
    // `g` is none of the other windows shown, and `f` is shown once.
    normal.lemma_filter_pred(not_in(others), n);
    assert(!others.contains(g));
    assert forall|j: int| 0 <= j < current.len() && j != p implies #[trigger] current[j] != f
        && current[j] != g by {
        if current[j] == f {
            if j < p {
                lemma_filter_two(current, is_win(f), j, p);
            } else {
                lemma_filter_two(current, is_win(f), p, j);
            }
        } else {
            current.lemma_filter_contains(not_win(f), j);
        }
    }
    lemma_filter_swap(current, p, f, g);
    let current2 = current.update(p, g);
    assert(cycle_candidates(current2, normal, g) == wins);
    // The window that replaced `f` sits at `n`, and cycling back from it
    // lands on `i`.
    let i2 = first_position(wins, g);
    assert(wins.contains(g));
    assert(0 <= i2 < l && wins[i2] == g && forall|j: int| 0 <= j < i2 ==> wins[j] != g);
    assert(i2 == n) by {
        if i2 != n {
            assert(wins[i2] == wins[n]);
        }
    }
    if next {
        if i + 1 < l {
            vstd::arithmetic::div_mod::lemma_fundamental_div_mod_converse(i + 1, l, 0, i + 1);
            vstd::arithmetic::div_mod::lemma_fundamental_div_mod_converse(i, l, 0, i);
        } else {
            vstd::arithmetic::div_mod::lemma_fundamental_div_mod_converse(i + 1, l, 1, 0);
            vstd::arithmetic::div_mod::lemma_fundamental_div_mod_converse(-1, l, -1, l - 1);
        }
    } else {
        if i >= 1 {
            vstd::arithmetic::div_mod::lemma_fundamental_div_mod_converse(i - 1, l, 0, i - 1);
            vstd::arithmetic::div_mod::lemma_fundamental_div_mod_converse(i, l, 0, i);
        } else {
            vstd::arithmetic::div_mod::lemma_fundamental_div_mod_converse(-1, l, -1, l - 1);
            vstd::arithmetic::div_mod::lemma_fundamental_div_mod_converse(l, l, 1, 0);
        }
    }
    assert(cycled(wins, g, !next) == f);
    assert(current2.filter(is_win(g)).len() == 1);
    assert(current2.filter(not_win(g)).len() == allowed);
    assert(spec_cycle_target(layer, half, current2, normal, g, !next) == Ok::<
        Option<(WindowRef, WindowRef)>,
        crate::result::TilesManagerError,
    >(Some((g, f)))) by {
        reveal(spec_cycle_target);
    }
}
/// A leaf lies along the side `edge` of a window facing `direction` when
/// it spans across the line of that side and overlaps the side's extent:
/// for a side facing up or down, the line is the horizontal one at the
/// side's height and the extent its horizontal range; for one facing left
/// or right, the line is the vertical one at the side's abscissa and the
/// extent its vertical range. So the leaf right below a window (its top on
/// the window's bottom edge) is found searching down from that edge.
pub proof fn law_edge_filter_follows_the_side(l: AreaLeaf<WindowRef>, d: Direction, edge: [(i32, i32); 2])
    ensures
        (d == Direction::Up || d == Direction::Down) ==> (limited_by_edge(l, d, edge) <==> (
        l.viewbox.x < edge[1].0 && edge[0].0 < l.viewbox.x + l.viewbox.width && l.viewbox.y
            <= edge[0].1 && edge[0].1 <= l.viewbox.y + l.viewbox.height)),
        (d == Direction::Left || d == Direction::Right) ==> (limited_by_edge(l, d, edge) <==> (
        l.viewbox.y < edge[1].1 && edge[0].1 < l.viewbox.y + l.viewbox.height && l.viewbox.x
            <= edge[0].0 && edge[0].0 <= l.viewbox.x + l.viewbox.width)),
{
}

/// A leaf whose top lies on the bottom side of a window, and that overlaps
/// that side, is along it when searching down; likewise the leaf whose
/// left side lies on a window's right side when searching right.
pub proof fn law_adjacent_leaf_is_along_the_side(l: AreaLeaf<WindowRef>, edge: [(i32, i32); 2])
    ensures
        l.viewbox.y == edge[0].1 && l.viewbox.x < edge[1].0 && edge[0].0 < l.viewbox.x
            + l.viewbox.width ==> limited_by_edge(l, Direction::Down, edge),
        l.viewbox.x == edge[0].0 && l.viewbox.y < edge[1].1 && edge[0].1 < l.viewbox.y
            + l.viewbox.height ==> limited_by_edge(l, Direction::Right, edge),
{
}

/// Which side of a tiled window a drag resizes depends on how far its
/// left (or top) side moved, not on which way: a delta and the same delta
/// with the move of the left (or top) side reversed give the same resizes.
/// A left side moved by more than 10 pixels resizes towards the left
/// neighbour, the split growing by the width lost; otherwise towards the
/// right one, growing by the width gained (likewise up and down).
pub proof fn law_resize_side_by_distance(
    dx: i32,
    dy: i32,
    dw: i32,
    dh: i32,
    area: Area,
    has_w_neigh: bool,
    has_h_neigh: bool,
)
    requires
        dx != i32::MIN,
        dy != i32::MIN,
        dw != i32::MIN,
        dh != i32::MIN,
        area.wf(),
    ensures
        spec_resize_steps((dx, dy, dw, dh), area, has_w_neigh, has_h_neigh) == spec_resize_steps(
            ((-dx) as i32, dy, dw, dh),
            area,
            has_w_neigh,
            has_h_neigh,
        ),
        spec_resize_steps((dx, dy, dw, dh), area, has_w_neigh, has_h_neigh) == spec_resize_steps(
            (dx, (-dy) as i32, dw, dh),
            area,
            has_w_neigh,
            has_h_neigh,
        ),
        dw != 0 && has_w_neigh && (dx > 10 || dx < -10) && area.x - 20 >= i32::MIN ==> (
        spec_resize_steps((dx, dy, dw, dh), area, has_w_neigh, has_h_neigh)[0].to.0 == area.x - 20
            && spec_resize_steps((dx, dy, dw, dh), area, has_w_neigh, has_h_neigh)[0].growth
            == -dw),
        dw != 0 && has_w_neigh && -10 <= dx <= 10 && area.x + area.width + 20 <= i32::MAX ==> (
        spec_resize_steps((dx, dy, dw, dh), area, has_w_neigh, has_h_neigh)[0].to.0 == area.x
            + area.width + 20 && spec_resize_steps((dx, dy, dw, dh), area, has_w_neigh, has_h_neigh)[0].growth
            == dw),
        dh != 0 && has_h_neigh && (dy > 10 || dy < -10) && area.y - 20 >= i32::MIN ==> (
        spec_resize_steps((dx, dy, dw, dh), area, has_w_neigh, has_h_neigh).last().to.1 == area.y
            - 20 && spec_resize_steps((dx, dy, dw, dh), area, has_w_neigh, has_h_neigh).last().growth
            == -dh),
        dh != 0 && has_h_neigh && -10 <= dy <= 10 && area.y + area.height + 20 <= i32::MAX ==> (
        spec_resize_steps((dx, dy, dw, dh), area, has_w_neigh, has_h_neigh).last().to.1 == area.y
            + area.height + 20 && spec_resize_steps(
            (dx, dy, dw, dh),
            area,
            has_w_neigh,
            has_h_neigh,
        ).last().growth == dh),
{
    let d = (dx, dy, dw, dh);
    assert(spec_resize_steps(d, area, has_w_neigh, has_h_neigh) =~= spec_resize_steps(
        ((-dx) as i32, dy, dw, dh),
        area,
        has_w_neigh,
        has_h_neigh,
    ));
    assert(spec_resize_steps(d, area, has_w_neigh, has_h_neigh) =~= spec_resize_steps(
        (dx, (-dy) as i32, dw, dh),
        area,
        has_w_neigh,
        has_h_neigh,
    ));
}

/// With a neighbour towards the direction, the focused window grows by the
/// increment (at most 500) on the side facing that direction alone.
pub proof fn law_focused_padding_facing_side(d: Direction, increment: u16, has_neigh2: bool)
    ensures
        ({
            let i: int = if increment > 500 {
                500
            } else {
                increment as int
            };
            let p = spec_focused_resize_padding(d, increment, true, has_neigh2);
            &&& p.0.0 == (if d == Direction::Left {
                i
            } else {
                0
            })
            &&& p.0.1 == (if d == Direction::Right {
                i
            } else {
                0
            })
            &&& p.1.0 == (if d == Direction::Up {
                i
            } else {
                0
            })
            &&& p.1.1 == (if d == Direction::Down {
                i
            } else {
                0
            })
        }),
{
}

/// With a neighbour only on the other side, the padding towards a
/// direction undoes the one towards the opposite direction with a
/// neighbour there; resizing up or down pads the vertical sides as resizing
/// left or right pads the horizontal ones; without neighbours nothing is
/// padded.
pub proof fn law_focused_padding_sides_mirror(d: Direction, increment: u16, n1: bool, n2: bool)
    ensures
        ({
            let p = spec_focused_resize_padding(d, increment, false, true);
            let q = spec_focused_resize_padding(d.spec_opposite(), increment, true, false);
            p.0.0 == -q.0.0 && p.0.1 == -q.0.1 && p.1.0 == -q.1.0 && p.1.1 == -q.1.1
        }),
        spec_focused_resize_padding(Direction::Up, increment, n1, n2) == ((0int, 0int),
        spec_focused_resize_padding(Direction::Left, increment, n1, n2).0),
        spec_focused_resize_padding(Direction::Down, increment, n1, n2) == ((0int, 0int),
        spec_focused_resize_padding(Direction::Right, increment, n1, n2).0),
        spec_focused_resize_padding(d, increment, false, false) == ((0int, 0int), (0int, 0int)),
{
}

/// No center lies beyond a line both ways; off the line it lies beyond it
/// one way or the other.
pub proof fn law_beyond_one_way(c: (int, int), d: Direction, e: int)
    ensures
        !(center_beyond(c, d, e) && center_beyond(c, d.spec_opposite(), e)),
        (if d.spec_axis() == Orientation::Horizontal {
            c.0
        } else {
            c.1
        }) != e ==> center_beyond(c, d, e) || center_beyond(c, d.spec_opposite(), e),
{
}

/// The center of an area (at least 2 by 2) never lies beyond its own side
/// facing a direction, but lies beyond it the other way; and the center of
/// an area set against that side from outside lies beyond it: the window
/// right below another is beyond the other's bottom side.
pub proof fn law_beyond_is_outside(a: Area, b: Area, d: Direction)
    requires
        a.width >= 2,
        a.height >= 2,
        b.width >= 2,
        b.height >= 2,
    ensures
        !center_beyond(a.center(), d, a.edge(d)),
        center_beyond(a.center(), d.spec_opposite(), a.edge(d)),
        b.edge(d.spec_opposite()) == a.edge(d) ==> center_beyond(b.center(), d, a.edge(d)),
{
}

/// The arguments of a command reach its operation unchanged and in their
/// places, as do those of the messages that give such commands.
pub proof fn law_command_arguments_reach_the_operation(
    d: Direction,
    b: bool,
    s: u16,
    fs: u16,
    r: u32,
    o: Option<bool>,
    id: String,
)
    ensures
        spec_command_plan(TMCommand::Resize(d, s, fs)) == Some(TMOperation::ResizeFocused(d, s, fs)),
        spec_command_plan(TMCommand::Move(d, b, s)) == Some(TMOperation::MoveFocused(d, b, s)),
        spec_command_plan(TMCommand::Peek(d, r)) == Some(TMOperation::PeekCurrent(d, r)),
        spec_command_plan(TMCommand::Insert(d)) == Some(TMOperation::InsertFocused(d)),
        spec_command_plan(TMCommand::Focus(d)) == Some(TMOperation::ChangeFocus(d)),
        spec_command_plan(TMCommand::FocusMonitor(d)) == Some(TMOperation::ChangeFocusMonitor(d)),
        spec_command_plan(TMCommand::Release(o)) == Some(TMOperation::ReleaseFocused(o)),
        spec_command_plan(TMCommand::CycleFocalized(b)) == Some(TMOperation::CycleFocalized(b)),
        spec_command_plan(TMCommand::Update(b)) == Some(TMOperation::UpdateLayout(b)),
        spec_command_plan(TMCommand::FocusWorkspace { id }) == Some(TMOperation::FocusWorkspace(id)),
        spec_command_plan(TMCommand::MoveToWorkspace { id, focus: b }) == Some(
            TMOperation::MoveFocusedToWorkspace(id, b),
        ),
        spec_command_of(MondrianMessage::Resize(d, s, fs)) matches Ok(c) && spec_command_plan(c) == Some(
            TMOperation::ResizeFocused(d, s, fs),
        ),
        spec_command_of(MondrianMessage::Move(d, s)) matches Ok(c) && spec_command_plan(c) == Some(
            TMOperation::MoveFocused(d, false, s),
        ),
        spec_command_of(MondrianMessage::MoveInsert(d, s)) matches Ok(c) && spec_command_plan(c)
            == Some(TMOperation::MoveFocused(d, true, s)),
{
}

} // verus!
