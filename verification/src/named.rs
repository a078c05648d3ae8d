use vstd::prelude::*;

use crate::containers::same_text;

verus! {

/// No two entries share a name: the list then stands for a map from names
/// to values, the form the configuration takes.
pub open spec fn names_unique<V>(s: Seq<(String, V)>) -> bool {
    forall|i: int, j: int| 0 <= i < j < s.len() ==> (#[trigger] s[i]).0@ != (#[trigger] s[j]).0@
}

/// The value of the first entry named `k`.
pub open spec fn lookup<V>(s: Seq<(String, V)>, k: Seq<char>) -> Option<V>
    decreases s.len(),
{
    if s.len() == 0 {
        None
    } else if s[0].0@ == k {
        Some(s[0].1)
    } else {
        lookup(s.drop_first(), k)
    }
}

proof fn lemma_lookup_skip<V>(s: Seq<(String, V)>, k: Seq<char>, i: int)
    requires
        0 <= i < s.len(),
        s[i].0@ != k,
    ensures
        lookup(s.subrange(i, s.len() as int), k) == lookup(s.subrange(i + 1, s.len() as int), k),
{
    let t = s.subrange(i, s.len() as int);
    assert(t.drop_first() =~= s.subrange(i + 1, s.len() as int));
}

/// Where names are unique, the lookup of each entry's name finds that
/// entry's value: the first match is the only one.
pub proof fn lemma_lookup_unique<V>(s: Seq<(String, V)>, i: int)
    requires
        names_unique(s),
        0 <= i < s.len(),
    ensures
        lookup(s, s[i].0@) == Some(s[i].1),
    decreases s.len(),
{
    if i > 0 {
        assert(s[0].0@ != s[i].0@);
        let t = s.drop_first();
        assert(t[i - 1] == s[i]);
        assert(names_unique(t)) by {
            assert forall|a: int, b: int| 0 <= a < b < t.len() implies (#[trigger] t[a]).0@
                != (#[trigger] t[b]).0@ by {
                assert(t[a] == s[a + 1] && t[b] == s[b + 1]);
            }
        }
        lemma_lookup_unique(t, i - 1);
    }
}

/// Position of the first entry named `name`, if any: the lookup of a
/// configuration by name.
pub fn find_named<V>(entries: &Vec<(String, V)>, name: &String) -> (r: Option<usize>)
    ensures
        match r {
            Some(i) => i < entries@.len() && lookup(entries@, name@) == Some(entries@[i as int].1),
            None => lookup(entries@, name@) == None::<V>,
        },
{
    let n = entries.len();
    assert(entries@.subrange(0, n as int) =~= entries@);
    for i in 0..n
        invariant
            n == entries@.len(),
            lookup(entries@, name@) == lookup(entries@.subrange(i as int, n as int), name@),
    {
        if same_text(&entries[i].0, name) {
            let ghost t = entries@.subrange(i as int, n as int);
            assert(t[0] == entries@[i as int]);
            return Some(i);
        }
        proof {
            lemma_lookup_skip(entries@, name@, i as int);
        }
    }
    None
}

} // verus!
