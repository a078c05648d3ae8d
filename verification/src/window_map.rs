use vstd::prelude::*;

use crate::window::WindowRef;

verus! {

/// No window appears as the key of two entries.
pub open spec fn keys_distinct<V>(s: Seq<(WindowRef, V)>) -> bool {
    forall|i: int, j: int| 0 <= i < j < s.len() ==> s[i].0 != s[j].0
}

pub open spec fn has_key<V>(s: Seq<(WindowRef, V)>, k: WindowRef) -> bool {
    exists|i: int| 0 <= i < s.len() && s[i].0 == k
}

/// The map described by a sequence of entries with distinct keys.
pub open spec fn entries_map<V>(s: Seq<(WindowRef, V)>) -> Map<WindowRef, V> {
    Map::new(
        |k: WindowRef| has_key(s, k),
        |k: WindowRef| s[choose|i: int| 0 <= i < s.len() && s[i].0 == k].1,
    )
}

pub proof fn lemma_entries_map_index<V>(s: Seq<(WindowRef, V)>, i: int)
    requires
        keys_distinct(s),
        0 <= i < s.len(),
    ensures
        entries_map(s).contains_key(s[i].0),
        entries_map(s)[s[i].0] == s[i].1,
{
    let k = s[i].0;
    assert(has_key(s, k));
    let j = choose|j: int| 0 <= j < s.len() && s[j].0 == k;
    if j < i {
        assert(s[j].0 != s[i].0);
    } else if i < j {
        assert(s[i].0 != s[j].0);
    }
}

/// A map from windows to values, kept as a vector of entries in insertion
/// order with distinct keys.
pub struct WindowMap<V> {
    entries: Vec<(WindowRef, V)>,
}

impl<V: Copy> WindowMap<V> {
    /// The entries, in the order in which they are kept.
    pub closed spec fn seq(&self) -> Seq<(WindowRef, V)> {
        self.entries@
    }

    pub closed spec fn wf(&self) -> bool {
        keys_distinct(self.entries@)
    }

    pub open spec fn view(&self) -> Map<WindowRef, V> {
        entries_map(self.seq())
    }

    pub proof fn lemma_dom_finite(&self)
        requires
            self.wf(),
        ensures
            self@.dom().finite(),
            self@.dom().len() == self.seq().len(),
    {
        let s = self.seq();
        let f = |e: (WindowRef, V)| e.0;
        let keys = s.map_values(f);
        assert forall|i: int, j: int| 0 <= i < j < keys.len() implies keys[i] != keys[j] by {
            assert(s[i].0 != s[j].0);
        }
        keys.unique_seq_to_set();
        assert forall|k: WindowRef| self@.dom().contains(k) <==> keys.to_set().contains(k) by {
            if self@.dom().contains(k) {
                let i = choose|i: int| 0 <= i < s.len() && s[i].0 == k;
                assert(keys[i] == k);
            }
            if keys.to_set().contains(k) {
                let i = choose|i: int| 0 <= i < keys.len() && keys[i] == k;
                assert(s[i].0 == k);
            }
        }
        assert(self@.dom() =~= keys.to_set());
    }

    pub proof fn lemma_index(&self, i: int)
        requires
            self.wf(),
            0 <= i < self.seq().len(),
        ensures
            self@.contains_key(self.seq()[i].0),
            self@[self.seq()[i].0] == self.seq()[i].1,
    {
        lemma_entries_map_index(self.seq(), i);
    }

    pub proof fn lemma_distinct(&self, i: int, j: int)
        requires
            self.wf(),
            0 <= i < j < self.seq().len(),
        ensures
            self.seq()[i].0 != self.seq()[j].0,
    {
    }

    pub fn new() -> (m: WindowMap<V>)
        ensures
            m.wf(),
            m.seq() == Seq::<(WindowRef, V)>::empty(),
            m@ == Map::<WindowRef, V>::empty(),
    {
        let m = WindowMap { entries: Vec::new() };
        assert(m@ =~= Map::<WindowRef, V>::empty());
        m
    }

    pub fn len(&self) -> (n: usize)
        ensures
            n == self.seq().len(),
    {
        self.entries.len()
    }

    /// The entry at position `i`.
    pub fn entry(&self, i: usize) -> (e: (WindowRef, V))
        requires
            i < self.seq().len(),
        ensures
            e == self.seq()[i as int],
    {
        self.entries[i]
    }

    /// Position of the entry of `k`, if any.
    pub fn find(&self, k: &WindowRef) -> (r: Option<usize>)
        requires
            self.wf(),
        ensures
            match r {
                Some(i) => i < self.seq().len() && self.seq()[i as int].0 == *k,
                None => !self@.contains_key(*k),
            },
    {
        let n = self.entries.len();
        for i in 0..n
            invariant
                n == self.entries@.len(),
                forall|j: int| 0 <= j < i ==> self.entries@[j].0 != *k,
        {
            if self.entries[i].0 == *k {
                return Some(i);
            }
        }
        None
    }

    pub fn contains_key(&self, k: &WindowRef) -> (b: bool)
        requires
            self.wf(),
        ensures
            b == self@.contains_key(*k),
    {
        match self.find(k) {
            Some(i) => {
                proof {
                    self.lemma_index(i as int);
                }
                true
            },
            None => false,
        }
    }

    pub fn get(&self, k: &WindowRef) -> (r: Option<V>)
        requires
            self.wf(),
        ensures
            r == (if self@.contains_key(*k) {
                Some(self@[*k])
            } else {
                None::<V>
            }),
    {
        match self.find(k) {
            Some(i) => {
                proof {
                    self.lemma_index(i as int);
                }
                Some(self.entries[i].1)
            },
            None => None,
        }
    }

    /// Replaces the value of the entry at position `i`, keeping its key.
    pub fn set_value(&mut self, i: usize, v: V)
        requires
            old(self).wf(),
            i < old(self).seq().len(),
        ensures
            final(self).wf(),
            final(self).seq() == old(self).seq().update(i as int, (old(self).seq()[i as int].0, v)),
            final(self)@ == old(self)@.insert(old(self).seq()[i as int].0, v),
    {
        let ghost s = self.entries@;
        let k = self.entries[i].0;
        self.entries.set(i, (k, v));
        proof {
            let t = self.entries@;
            assert(t == s.update(i as int, (k, v)));
            assert forall|a: int, b: int| 0 <= a < b < t.len() implies t[a].0 != t[b].0 by {
                assert(s[a].0 != s[b].0);
            }
            lemma_entries_map_index(s, i as int);
            assert forall|w: WindowRef| #[trigger] has_key(t, w) == has_key(s, w) by {
                if has_key(t, w) {
                    let j = choose|j: int| 0 <= j < t.len() && t[j].0 == w;
                    assert(s[j].0 == w);
                }
                if has_key(s, w) {
                    let j = choose|j: int| 0 <= j < s.len() && s[j].0 == w;
                    assert(t[j].0 == w);
                }
            }
            assert forall|w: WindowRef| has_key(t, w) implies entries_map(t)[w] == entries_map(
                s,
            ).insert(k, v)[w] by {
                let j = choose|j: int| 0 <= j < t.len() && t[j].0 == w;
                lemma_entries_map_index(t, j);
                if j != i {
                    lemma_entries_map_index(s, j);
                }
            }
            assert(entries_map(t) =~= entries_map(s).insert(k, v));
        }
    }

    /// Sets the value of `k`, returning the previous one.
    pub fn insert(&mut self, k: WindowRef, v: V) -> (r: Option<V>)
        requires
            old(self).wf(),
        ensures
            final(self).wf(),
            final(self)@ == old(self)@.insert(k, v),
            r == (if old(self)@.contains_key(k) {
                Some(old(self)@[k])
            } else {
                None::<V>
            }),
            old(self)@.contains_key(k) ==> final(self).seq().len() == old(self).seq().len(),
            !old(self)@.contains_key(k) ==> final(self).seq() == old(self).seq().push((k, v)),
    {
        match self.find(&k) {
            Some(i) => {
                proof {
                    self.lemma_index(i as int);
                }
                let prev = self.entries[i].1;
                self.set_value(i, v);
                Some(prev)
            },
            None => {
                let ghost s = self.entries@;
                self.entries.push((k, v));
                proof {
                    let t = self.entries@;
                    assert(t == s.push((k, v)));
                    assert forall|a: int, b: int| 0 <= a < b < t.len() implies t[a].0
                        != t[b].0 by {
                        if b == s.len() {
                            assert(s[a].0 != k) by {
                                if s[a].0 == k {
                                    assert(has_key(s, k));
                                }
                            }
                        } else {
                            assert(s[a].0 != s[b].0);
                        }
                    }
                    assert forall|w: WindowRef| #[trigger]
                        has_key(t, w) == (has_key(s, w) || w == k) by {
                        if has_key(t, w) {
                            let j = choose|j: int| 0 <= j < t.len() && t[j].0 == w;
                            if j < s.len() {
                                assert(s[j].0 == w);
                            }
                        }
                        if has_key(s, w) {
                            let j = choose|j: int| 0 <= j < s.len() && s[j].0 == w;
                            assert(t[j].0 == w);
                        }
                        if w == k {
                            assert(t[s.len() as int].0 == w);
                        }
                    }
                    assert forall|w: WindowRef| has_key(t, w) implies entries_map(t)[w]
                        == entries_map(s).insert(k, v)[w] by {
                        let j = choose|j: int| 0 <= j < t.len() && t[j].0 == w;
                        lemma_entries_map_index(t, j);
                        if j < s.len() {
                            lemma_entries_map_index(s, j);
                        }
                    }
                    assert(entries_map(t) =~= entries_map(s).insert(k, v));
                }
                None
            },
        }
    }

    /// Removes the entry of `k`, returning its value.
    pub fn remove(&mut self, k: &WindowRef) -> (r: Option<V>)
        requires
            old(self).wf(),
        ensures
            final(self).wf(),
            final(self)@ == old(self)@.remove(*k),
            r == (if old(self)@.contains_key(*k) {
                Some(old(self)@[*k])
            } else {
                None::<V>
            }),
    {
        match self.find(k) {
            Some(i) => {
                proof {
                    self.lemma_index(i as int);
                }
                let ghost s = self.entries@;
                let e = self.entries.remove(i);
                proof {
                    let t = self.entries@;
                    assert(t == s.remove(i as int));
                    assert forall|a: int, b: int| 0 <= a < b < t.len() implies t[a].0
                        != t[b].0 by {
                        let a2 = if a < i { a } else { a + 1 };
                        let b2 = if b < i { b } else { b + 1 };
                        assert(s[a2].0 != s[b2].0);
                    }
                    assert forall|w: WindowRef| #[trigger]
                        has_key(t, w) == (has_key(s, w) && w != *k) by {
                        if has_key(t, w) {
                            let j = choose|j: int| 0 <= j < t.len() && t[j].0 == w;
                            let j2 = if j < i { j } else { j + 1 };
                            assert(s[j2].0 == w);
                            assert(j2 != i);
                            if j2 < i {
                                assert(s[j2].0 != s[i as int].0);
                            } else {
                                assert(s[i as int].0 != s[j2].0);
                            }
                        }
                        if has_key(s, w) && w != *k {
                            let j = choose|j: int| 0 <= j < s.len() && s[j].0 == w;
                            assert(j != i);
                            let j2 = if j < i { j } else { j - 1 };
                            assert(t[j2].0 == w);
                        }
                    }
                    assert forall|w: WindowRef| has_key(t, w) implies entries_map(t)[w]
                        == entries_map(s).remove(*k)[w] by {
                        let j = choose|j: int| 0 <= j < t.len() && t[j].0 == w;
                        lemma_entries_map_index(t, j);
                        let j2 = if j < i { j } else { j + 1 };
                        lemma_entries_map_index(s, j2);
                    }
                    assert(entries_map(t) =~= entries_map(s).remove(*k));
                }
                Some(e.1)
            },
            None => {
                assert(self@ =~= self@.remove(*k));
                None
            },
        }
    }

    /// The keys, in the order in which the entries are kept.
    pub fn keys(&self) -> (r: Vec<WindowRef>)
        requires
            self.wf(),
        ensures
            r@.len() == self.seq().len(),
            forall|i: int| 0 <= i < r@.len() ==> r@[i] == self.seq()[i].0,
    {
        let mut r: Vec<WindowRef> = Vec::new();
        let n = self.entries.len();
        for i in 0..n
            invariant
                n == self.entries@.len(),
                r@.len() == i,
                forall|j: int| 0 <= j < i ==> r@[j] == self.entries@[j].0,
        {
            r.push(self.entries[i].0);
        }
        r
    }
}

} // verus!
