use vstd::prelude::*;

use crate::utils::AreaLeaf;
use crate::window::WindowRef;
use crate::window_map::{WindowMap, has_key, lemma_entries_map_index, entries_map};

verus! {

/// Number of windows after which the oldest one is forgotten.
pub const MAX_ENTRIES: usize = 100;

/// Abstract state of a focus history.
pub struct FocusState {
    /// Focus stamp of each window: the higher, the more recent.
    pub values: Map<WindowRef, u64>,
    /// Windows from the least to the most recently focused.
    pub order: Seq<WindowRef>,
    /// Position recorded for each window in `order` when it was last pushed.
    pub positions: Map<WindowRef, usize>,
    /// The latest stamp handed out.
    pub current_max: u64,
}

/// `v` is the least value of `m`, or 0 when `m` is empty.
pub open spec fn is_min_value(m: Map<WindowRef, u64>, v: u64) -> bool {
    &&& m.dom().is_empty() ==> v == 0
    &&& !m.dom().is_empty() ==> {
        &&& exists|k: WindowRef| m.contains_key(k) && m[k] == v
        &&& forall|k: WindowRef| m.contains_key(k) ==> v <= #[trigger] m[k]
    }
}

pub open spec fn map_min(m: Map<WindowRef, u64>) -> u64 {
    choose|v: u64| is_min_value(m, v)
}

/// Every value lowered by `d`.
pub open spec fn lowered(m: Map<WindowRef, u64>, d: u64) -> Map<WindowRef, u64> {
    Map::new(|k: WindowRef| m.contains_key(k), |k: WindowRef| (m[k] - d) as u64)
}

pub proof fn lemma_min_unique(m: Map<WindowRef, u64>, a: u64, b: u64)
    requires
        is_min_value(m, a),
        is_min_value(m, b),
    ensures
        a == b,
{
    if !m.dom().is_empty() {
        let ka = choose|k: WindowRef| m.contains_key(k) && m[k] == a;
        let kb = choose|k: WindowRef| m.contains_key(k) && m[k] == b;
        assert(a <= m[kb]);
        assert(b <= m[ka]);
    }
}

impl FocusState {
    /// The state after `w` gains the focus: stamps are first lowered by
    /// their minimum when the counter is exhausted; then the position
    /// recorded for `w` is removed from `order` (if it is in range), `w` is
    /// pushed with a fresh stamp, and the oldest window is dropped when
    /// more than `MAX_ENTRIES` are kept.
    pub open spec fn after_update(self, w: WindowRef) -> FocusState {
        let min_v = map_min(self.values);
        let values1 = if self.current_max == u64::MAX {
            lowered(self.values, min_v)
        } else {
            self.values
        };
        let cm1 = if self.current_max == u64::MAX {
            (self.current_max - min_v) as u64
        } else {
            self.current_max
        };
        let order1 = if self.positions.contains_key(w) && self.positions[w] < self.order.len() {
            self.order.remove(self.positions[w] as int)
        } else {
            self.order
        };
        let cm2 = (cm1 + 1) as u64;
        let order2 = order1.push(w);
        let positions2 = self.positions.insert(w, (order2.len() - 1) as usize);
        let values2 = values1.insert(w, cm2);
        if order2.len() > MAX_ENTRIES {
            let x = order2[0];
            FocusState {
                values: values2.remove(x),
                order: order2.drop_first(),
                positions: positions2.remove(x),
                current_max: cm2,
            }
        } else {
            FocusState { values: values2, order: order2, positions: positions2, current_max: cm2 }
        }
    }

    /// The stamp counter is not exhausted for good: either it has room
    /// left, or lowering the stamps by their minimum frees some.
    pub open spec fn can_update(self) -> bool {
        self.current_max == u64::MAX ==> map_min(self.values) > 0
    }

    pub open spec fn inv(self) -> bool {
        &&& self.order.len() <= MAX_ENTRIES
        &&& forall|k: WindowRef| self.values.contains_key(k) ==> #[trigger] self.values[k]
            <= self.current_max
    }
}

/// Leaf `i` is, among the leaves whose window is remembered, the first one
/// with the latest stamp.
pub open spec fn is_latest_leaf(values: Map<WindowRef, u64>, s: Seq<AreaLeaf<WindowRef>>, i: int) -> bool {
    &&& 0 <= i < s.len()
    &&& values.contains_key(s[i].id)
    &&& forall|j: int|
        0 <= j < s.len() && values.contains_key(#[trigger] s[j].id) ==> values[s[j].id]
            <= values[s[i].id]
    &&& forall|j: int|
        0 <= j < i && values.contains_key(#[trigger] s[j].id) ==> values[s[j].id] < values[s[i].id]
}

/// The windows that had the focus, each stamped with the time of its
/// latest focus, so that the most recently focused can be found.
pub struct FocusHistory {
    map: WindowMap<u64>,
    order: Vec<WindowRef>,
    order_map: WindowMap<usize>,
    current_max: u64,
}

impl FocusHistory {
    pub closed spec fn view(&self) -> FocusState {
        FocusState {
            values: self.map@,
            order: self.order@,
            positions: self.order_map@,
            current_max: self.current_max,
        }
    }

    pub closed spec fn wf(&self) -> bool {
        &&& self.map.wf()
        &&& self.order_map.wf()
        &&& self@.inv()
    }

    pub fn new() -> (h: FocusHistory)
        ensures
            h.wf(),
            h@.values == Map::<WindowRef, u64>::empty(),
            h@.order == Seq::<WindowRef>::empty(),
            h@.positions == Map::<WindowRef, usize>::empty(),
            h@.current_max == 0,
    {
        FocusHistory {
            map: WindowMap::new(),
            order: Vec::new(),
            order_map: WindowMap::new(),
            current_max: 0,
        }
    }

    /// The stamp of the latest focus of `window`, if it is remembered.
    pub fn value(&self, window: WindowRef) -> (r: Option<u64>)
        requires
            self.wf(),
        ensures
            r == (if self@.values.contains_key(window) {
                Some(self@.values[window])
            } else {
                None::<u64>
            }),
    {
        self.map.get(&window)
    }

    /// The most recently focused of the windows of `leaves`: the first leaf
    /// with the latest stamp among those whose window is remembered; none
    /// when no window of `leaves` is remembered.
    pub fn latest(&self, leaves: &Vec<AreaLeaf<WindowRef>>) -> (r: Option<AreaLeaf<WindowRef>>)
        requires
            self.wf(),
        ensures
            match r {
                Some(l) => exists|i: int| is_latest_leaf(self@.values, leaves@, i) && leaves@[i] == l,
                None => forall|j: int|
                    0 <= j < leaves@.len() ==> !self@.values.contains_key(#[trigger] leaves@[j].id),
            },
    {
        let n = leaves.len();
        let mut best: Option<usize> = None;
        let mut best_v: u64 = 0;
        for i in 0..n
            invariant
                n == leaves@.len(),
                self.wf(),
                match best {
                    Some(b) => {
                        &&& b < i
                        &&& self@.values.contains_key(leaves@[b as int].id)
                        &&& best_v == self@.values[leaves@[b as int].id]
                        &&& forall|j: int|
                            0 <= j < i && self@.values.contains_key(#[trigger] leaves@[j].id)
                                ==> self@.values[leaves@[j].id] <= best_v
                        &&& forall|j: int|
                            0 <= j < b && self@.values.contains_key(#[trigger] leaves@[j].id)
                                ==> self@.values[leaves@[j].id] < best_v
                    },
                    None => forall|j: int|
                        0 <= j < i ==> !self@.values.contains_key(#[trigger] leaves@[j].id),
                },
        {
            match self.map.get(&leaves[i].id) {
                Some(v) => {
                    match best {
                        Some(_) => {
                            if v > best_v {
                                best = Some(i);
                                best_v = v;
                            }
                        },
                        None => {
                            best = Some(i);
                            best_v = v;
                        },
                    }
                },
                None => {},
            }
        }
        match best {
            Some(b) => {
                assert(is_latest_leaf(self@.values, leaves@, b as int));
                Some(leaves[b])
            },
            None => None,
        }
    }

    /// Least stamp, or 0 when no window is remembered.
    fn min_value(&self) -> (v: u64)
        requires
            self.wf(),
        ensures
            is_min_value(self@.values, v),
            v == map_min(self@.values),
    {
        let n = self.map.len();
        let mut min_v: u64 = 0;
        let mut found = false;
        for i in 0..n
            invariant
                n == self.map.seq().len(),
                found == (i > 0),
                !found ==> min_v == 0,
                found ==> exists|j: int| 0 <= j < i && self.map.seq()[j].1 == min_v,
                forall|j: int| 0 <= j < i ==> min_v <= #[trigger] self.map.seq()[j].1,
        {
            let e = self.map.entry(i);
            if !found || e.1 < min_v {
                min_v = e.1;
                found = true;
            }
        }
        proof {
            let m = self.map@;
            let s = self.map.seq();
            self.map.lemma_dom_finite();
            if n > 0 {
                let j = choose|j: int| 0 <= j < n && s[j].1 == min_v;
                self.map.lemma_index(j);
                let kj = s[j].0;
                assert(m.contains_key(kj) && m[kj] == min_v);
                assert(m.dom().contains(kj));
                assert(!m.dom().is_empty());
                assert forall|k: WindowRef| m.contains_key(k) implies min_v <= #[trigger] m[k] by {
                    let i = choose|i: int| 0 <= i < s.len() && s[i].0 == k;
                    self.map.lemma_index(i);
                }
            } else {
                assert(m.dom().len() == 0);
                m.dom().lemma_len0_is_empty();
            }
            assert(is_min_value(m, min_v));
            lemma_min_unique(m, min_v, map_min(m));
        }
        min_v
    }

    /// Lowers every stamp by `d`.
    fn lower_all(&mut self, d: u64)
        requires
            old(self).wf(),
            is_min_value(old(self)@.values, d),
            d <= old(self).current_max,
        ensures
            final(self).map.wf(),
            final(self).order_map == old(self).order_map,
            final(self).order == old(self).order,
            final(self).current_max == old(self).current_max,
            final(self)@.values == lowered(old(self)@.values, d),
    {
        let ghost s0 = self.map.seq();
        let n = self.map.len();
        for i in 0..n
            invariant
                n == self.map.seq().len(),
                n == s0.len(),
                self.map.wf(),
                is_min_value(entries_map(s0), d),
                forall|j: int|
                    0 <= j < i ==> #[trigger] self.map.seq()[j] == (s0[j].0, (s0[j].1 - d) as u64),
                forall|j: int| i <= j < n ==> #[trigger] self.map.seq()[j] == s0[j],
                self.order_map == old(self).order_map,
                self.order == old(self).order,
                self.current_max == old(self).current_max,
                old(self).map.seq() == s0,
                old(self).map.wf(),
        {
            let e = self.map.entry(i);
            proof {
                old(self).map.lemma_index(i as int);
            }
            self.map.set_value(i, e.1 - d);
        }
        proof {
            let t = self.map.seq();
            let m0 = entries_map(s0);
            assert forall|w: WindowRef| #[trigger] has_key(t, w) == has_key(s0, w) by {
                if has_key(t, w) {
                    let j = choose|j: int| 0 <= j < t.len() && t[j].0 == w;
                    assert(s0[j].0 == w);
                }
                if has_key(s0, w) {
                    let j = choose|j: int| 0 <= j < s0.len() && s0[j].0 == w;
                    assert(t[j].0 == w);
                }
            }
            assert forall|w: WindowRef| has_key(t, w) implies entries_map(t)[w] == lowered(
                m0,
                d,
            )[w] by {
                let j = choose|j: int| 0 <= j < t.len() && t[j].0 == w;
                self.map.lemma_index(j);
                old(self).map.lemma_index(j);
            }
            assert(self@.values =~= lowered(m0, d));
        }
    }

    /// Records that `window` gained the focus.
    pub fn update(&mut self, window: WindowRef)
        requires
            old(self).wf(),
            old(self)@.can_update(),
        ensures
            final(self).wf(),
            final(self)@ == old(self)@.after_update(window),
            final(self)@.values.contains_key(window) ==> final(self)@.values[window]
                == final(self)@.current_max,
            forall|k: WindowRef|
                final(self)@.values.contains_key(k) && final(self)@.values.contains_key(window)
                    && k != window ==> #[trigger] final(self)@.values[k]
                    < final(self)@.values[window],
            forall|a: WindowRef, b: WindowRef|
                a != window && b != window && #[trigger] final(self)@.values.contains_key(a)
                    && #[trigger] final(self)@.values.contains_key(b) ==> (old(self)@.values[a]
                    < old(self)@.values[b] <==> final(self)@.values[a] < final(self)@.values[b]),
    {
        let ghost s0 = self@;
        // The stamps run out only after 2^64 focus changes; they are then
        // lowered by the least one.
        if self.current_max == u64::MAX {
            let min_v = self.min_value();
            self.lower_all(min_v);
            self.current_max = self.current_max - min_v;
        }
        assert(s0.current_max == u64::MAX ==> is_min_value(s0.values, map_min(s0.values)));
        let ghost s1 = self@;
        assert(self@.values == (if s0.current_max == u64::MAX {
            lowered(s0.values, map_min(s0.values))
        } else {
            s0.values
        }));
        assert forall|k: WindowRef| s1.values.contains_key(k) implies #[trigger] s1.values[k]
            < u64::MAX by {
            if s0.current_max == u64::MAX {
                assert(s0.values[k] <= s0.current_max);
            } else {
                assert(s0.values[k] <= s0.current_max);
            }
        }

        if let Some(p) = self.order_map.get(&window) {
            if p < self.order.len() {
                self.order.remove(p);
            }
        }

        self.current_max = self.current_max + 1;
        self.order.push(window);
        let last = self.order.len() - 1;
        self.order_map.insert(window, last);
        self.map.insert(window, self.current_max);

        // Only the latest windows are remembered.
        if self.order.len() > MAX_ENTRIES {
            let w = self.order.remove(0);
            self.map.remove(&w);
            self.order_map.remove(&w);
        }
        proof {
            let s = self@;
            assert(s.order =~= s0.after_update(window).order);
            assert(s.values =~= s0.after_update(window).values);
            assert(s.positions =~= s0.after_update(window).positions);
            assert forall|a: WindowRef, b: WindowRef|
                a != window && b != window && #[trigger] s.values.contains_key(a)
                    && #[trigger] s.values.contains_key(b) implies (s0.values[a] < s0.values[b]
                    <==> s.values[a] < s.values[b]) by {
                assert(s1.values.contains_key(a) && s1.values.contains_key(b));
                if s0.current_max == u64::MAX {
                    assert(map_min(s0.values) <= s0.values[a]);
                    assert(map_min(s0.values) <= s0.values[b]);
                }
            }
        }
    }
}

} // verus!
