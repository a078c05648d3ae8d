use vstd::prelude::*;

use crate::geometry::Area;

verus! {

/// A display monitor as reported by the system.
#[derive(Debug)]
pub struct Monitor {
    pub handle: isize,
    pub id: String,
    pub hw_id: String,
    pub primary: bool,
    pub resolution: (i32, i32),
    pub workspace: (i32, i32),
    pub offset: (i32, i32),
}

impl Clone for Monitor {
    fn clone(&self) -> (r: Self)
        ensures
            r == *self,
    {
        Monitor {
            handle: self.handle,
            id: self.id.clone(),
            hw_id: self.hw_id.clone(),
            primary: self.primary,
            resolution: self.resolution,
            workspace: self.workspace,
            offset: self.offset,
        }
    }
}

impl Monitor {
    /// The size of the work area fits in `u16` and its far edges in `i32`.
    pub open spec fn wf(&self) -> bool {
        &&& 0 <= self.workspace.0 <= u16::MAX
        &&& 0 <= self.workspace.1 <= u16::MAX
        &&& self.offset.0 + self.workspace.0 <= i32::MAX
        &&& self.offset.1 + self.workspace.1 <= i32::MAX
    }

    pub open spec fn spec_workspace(&self) -> Area {
        Area {
            x: self.offset.0,
            y: self.offset.1,
            width: self.workspace.0 as u16,
            height: self.workspace.1 as u16,
        }
    }

    /// The work area: the monitor's offset with the size of its work area.
    pub fn get_workspace(&self) -> (a: Area)
        requires
            self.wf(),
        ensures
            a == self.spec_workspace(),
            a.wf(),
    {
        Area::new(self.offset.0, self.offset.1, self.workspace.0 as u16, self.workspace.1 as u16)
    }

    /// A monitor as reported by the system, from its handle, its hardware
    /// id, whether it is the primary one, the rectangles (left, top, right,
    /// bottom) of the whole monitor and of its work area, and the offset of
    /// the monitor, if reported (else the origin). Its id is assigned later,
    /// once all monitors are known.
    pub fn from_info(
        handle: isize,
        hw_id: String,
        primary: bool,
        monitor_rect: (i32, i32, i32, i32),
        work_rect: (i32, i32, i32, i32),
        offset: Option<(i32, i32)>,
    ) -> (m: Monitor)
        requires
            i32::MIN <= monitor_rect.2 - monitor_rect.0 <= i32::MAX,
            i32::MIN <= monitor_rect.3 - monitor_rect.1 <= i32::MAX,
            0 <= work_rect.2 - work_rect.0 <= u16::MAX,
            0 <= work_rect.3 - work_rect.1 <= u16::MAX,
        ensures
            m.handle == handle,
            m.id@ == Seq::<char>::empty(),
            m.hw_id == hw_id,
            m.primary == primary,
            m.resolution == (
                (monitor_rect.2 - monitor_rect.0) as i32,
                (monitor_rect.3 - monitor_rect.1) as i32,
            ),
            m.workspace == ((work_rect.2 - work_rect.0) as i32, (work_rect.3 - work_rect.1) as i32),
            m.offset == (match offset {
                Some(o) => o,
                None => (0i32, 0i32),
            }),
    {
        Monitor {
            handle,
            id: String::new(),
            hw_id,
            primary,
            resolution: (monitor_rect.2 - monitor_rect.0, monitor_rect.3 - monitor_rect.1),
            workspace: (work_rect.2 - work_rect.0, work_rect.3 - work_rect.1),
            offset: match offset {
                Some(o) => o,
                None => (0, 0),
            },
        }
    }
}

/// `a` comes before `b` in the order of strings: character by character,
/// by code point, a proper prefix first (the order of their UTF-8 bytes).
pub open spec fn str_lt(a: Seq<char>, b: Seq<char>) -> bool
    decreases a.len(),
{
    if a.len() == 0 {
        b.len() > 0
    } else if b.len() == 0 {
        false
    } else if a[0] != b[0] {
        (a[0] as u32) < (b[0] as u32)
    } else {
        str_lt(a.drop_first(), b.drop_first())
    }
}

fn string_lt(a: &String, b: &String) -> (r: bool)
    ensures
        r == str_lt(a@, b@),
{
    let sa = a.as_str();
    let sb = b.as_str();
    let la = sa.unicode_len();
    let lb = sb.unicode_len();
    let mut i: usize = 0;
    assert(a@.skip(0) =~= a@);
    assert(b@.skip(0) =~= b@);
    while i < la && i < lb
        invariant
            i <= la,
            i <= lb,
            la == a@.len(),
            lb == b@.len(),
            sa@ == a@,
            sb@ == b@,
            str_lt(a@, b@) == str_lt(a@.skip(i as int), b@.skip(i as int)),
        decreases la - i,
    {
        let ca = sa.get_char(i);
        let cb = sb.get_char(i);
        if ca != cb {
            return (ca as u32) < (cb as u32);
        }
        assert(a@.skip(i as int).drop_first() =~= a@.skip(i + 1));
        assert(b@.skip(i as int).drop_first() =~= b@.skip(i + 1));
        i = i + 1;
    }
    la < lb
}

/// Monitor `i` is the first of those with the least hardware id.
pub open spec fn is_first_min(s: Seq<Monitor>, i: int) -> bool {
    &&& 0 <= i < s.len()
    &&& forall|j: int| 0 <= j < i ==> str_lt(s[i].hw_id@, #[trigger] s[j].hw_id@)
    &&& forall|j: int| i < j < s.len() ==> !str_lt(#[trigger] s[j].hw_id@, s[i].hw_id@)
}

pub(crate) proof fn lemma_first_min_unique(s: Seq<Monitor>, i: int, k: int)
    requires
        is_first_min(s, i),
        is_first_min(s, k),
    ensures
        i == k,
{
    if i < k {
        assert(str_lt(s[k].hw_id@, s[i].hw_id@));
    } else if k < i {
        assert(str_lt(s[i].hw_id@, s[k].hw_id@));
    }
}

pub(crate) proof fn lemma_str_lt_trans(a: Seq<char>, b: Seq<char>, c: Seq<char>)
    requires
        str_lt(a, b),
        str_lt(b, c),
    ensures
        str_lt(a, c),
    decreases a.len(),
{
    if a.len() > 0 && b.len() > 0 && c.len() > 0 && a[0] == b[0] && b[0] == c[0] {
        lemma_str_lt_trans(a.drop_first(), b.drop_first(), c.drop_first());
    }
}

pub(crate) proof fn lemma_str_lt_total(a: Seq<char>, b: Seq<char>)
    ensures
        a =~= b || str_lt(a, b) || str_lt(b, a),
    decreases a.len(),
{
    if a.len() > 0 && b.len() > 0 && a[0] != b[0] {
        let x = a[0];
        let y = b[0];
        vstd::utf8::char_u32_cast(x, x as u32);
        vstd::utf8::char_u32_cast(y, y as u32);
    }
    if a.len() > 0 && b.len() > 0 && a[0] == b[0] {
        lemma_str_lt_total(a.drop_first(), b.drop_first());
        if a.drop_first() =~= b.drop_first() {
            assert(a =~= seq![a[0]] + a.drop_first());
            assert(b =~= seq![b[0]] + b.drop_first());
        }
    }
}

pub(crate) proof fn lemma_str_lt_irrefl(a: Seq<char>)
    ensures
        !str_lt(a, a),
    decreases a.len(),
{
    if a.len() > 0 {
        lemma_str_lt_irrefl(a.drop_first());
    }
}

/// The index of the first monitor with the least hardware id.
fn first_min_hw_id(ms: &Vec<Monitor>) -> (r: usize)
    requires
        ms@.len() > 0,
    ensures
        is_first_min(ms@, r as int),
{
    let n = ms.len();
    let mut best: usize = 0;
    for i in 1..n
        invariant
            n == ms@.len(),
            best < i,
            forall|j: int| 0 <= j < best ==> str_lt(ms@[best as int].hw_id@, #[trigger] ms@[j].hw_id@),
            forall|j: int| best < j < i ==> !str_lt(#[trigger] ms@[j].hw_id@, ms@[best as int].hw_id@),
    {
        if string_lt(&ms[i].hw_id, &ms[best].hw_id) {
            proof {
                let c = ms@[i as int].hw_id@;
                let o = ms@[best as int].hw_id@;
                assert forall|j: int| 0 <= j < i implies str_lt(c, #[trigger] ms@[j].hw_id@) by {
                    let h = ms@[j].hw_id@;
                    if j < best {
                        lemma_str_lt_trans(c, o, h);
                    } else if j == best {
                    } else {
                        lemma_str_lt_total(h, o);
                        if !(h =~= o) {
                            lemma_str_lt_trans(c, o, h);
                        }
                    }
                }
            }
            best = i;
        }
    }
    best
}

/// A non-empty list of monitors has a first one with the least hardware id.
pub(crate) proof fn lemma_first_min_exists(s: Seq<Monitor>)
    requires
        s.len() > 0,
    ensures
        is_first_min(s, first_min(s)),
    decreases s.len(),
{
    if s.len() == 1 {
        assert(is_first_min(s, 0));
    } else {
        let n = s.len() - 1;
        let p0 = s.drop_last();
        lemma_first_min_exists(p0);
        let p = first_min(p0);
        let x = s[n].hw_id@;
        let b = s[p].hw_id@;
        assert(p0[p] == s[p]);
        if str_lt(x, b) {
            assert forall|j: int| 0 <= j < n implies str_lt(x, #[trigger] s[j].hw_id@) by {
                let h = s[j].hw_id@;
                assert(p0[j] == s[j]);
                if j < p {
                    lemma_str_lt_trans(x, b, h);
                } else if j > p {
                    lemma_str_lt_total(h, b);
                    if !(h =~= b) {
                        lemma_str_lt_trans(x, b, h);
                    }
                }
            }
            assert(is_first_min(s, n));
        } else {
            assert forall|j: int| p < j < s.len() implies !str_lt(#[trigger] s[j].hw_id@, b) by {
                if j < n {
                    assert(p0[j] == s[j]);
                }
            }
            assert forall|j: int| 0 <= j < p implies str_lt(b, #[trigger] s[j].hw_id@) by {
                assert(p0[j] == s[j]);
            }
            assert(is_first_min(s, p));
        }
    }
}

/// The monitor of `s` that comes first by hardware id.
pub open spec fn first_min(s: Seq<Monitor>) -> int {
    choose|i: int| is_first_min(s, i)
}

/// The monitors ordered by hardware id, those with equal ids in their
/// order: the first of the least, then the others ordered alike.
pub open spec fn by_hw_id(s: Seq<Monitor>) -> Seq<Monitor>
    decreases s.len(),
{
    let i = first_min(s);
    if 0 <= i < s.len() {
        seq![s[i]] + by_hw_id(s.remove(i))
    } else {
        Seq::empty()
    }
}

/// The decimal digits of `n`.
pub open spec fn decimal(n: nat) -> Seq<char>
    decreases n,
{
    if n < 10 {
        seq![(48 + n) as char]
    } else {
        decimal(n / 10).push((48 + n % 10) as char)
    }
}

/// Converts `n` with `ToString`, whose `Display` for integers writes their
/// decimal digits; the contract states that.
#[verifier::external_body]
fn decimal_string(n: usize) -> (s: String)
    ensures
        s@ == decimal(n as nat),
{
    n.to_string()
}

/// The id of the monitor at position `n`, counting from 1.
pub open spec fn monitor_id(n: nat) -> Seq<char> {
    "MONITOR"@ + decimal(n)
}

fn monitor_id_string(n: usize) -> (s: String)
    ensures
        s@ == monitor_id(n as nat),
{
    let mut s = "MONITOR".to_owned();
    let d = decimal_string(n);
    s.append(d.as_str());
    s
}

/// The monitors ordered by hardware id (a stable order), each given as id
/// `MONITOR` followed by its position in that order, counting from 1.
pub fn assign_monitor_ids(monitors: Vec<Monitor>) -> (r: Vec<Monitor>)
    ensures
        r@.len() == monitors@.len(),
        forall|k: int|
            0 <= k < r@.len() ==> #[trigger] r@[k] == (Monitor { id: r@[k].id, ..by_hw_id(monitors@)[k] })
                && r@[k].id@ == monitor_id((k + 1) as nat),
{
    let ghost all = monitors@;
    let total = monitors.len();
    let mut rest = monitors;
    let mut out: Vec<Monitor> = Vec::new();
    let ghost mut taken: Seq<Monitor> = Seq::empty();
    while rest.len() > 0
        invariant
            by_hw_id(all) == taken + by_hw_id(rest@),
            out@.len() == taken.len(),
            taken.len() + rest@.len() == all.len(),
            all.len() == total,
            forall|k: int|
                0 <= k < out@.len() ==> #[trigger] out@[k] == (Monitor { id: out@[k].id, ..taken[k] })
                    && out@[k].id@ == monitor_id((k + 1) as nat),
        decreases rest@.len(),
    {
        let i = first_min_hw_id(&rest);
        proof {
            let f = first_min(rest@);
            assert(is_first_min(rest@, i as int));
            lemma_first_min_unique(rest@, f, i as int);
            assert(by_hw_id(rest@) == seq![rest@[i as int]] + by_hw_id(rest@.remove(i as int)));
        }
        let ghost old_rest = rest@;
        let mut m = rest.remove(i);
        proof {
            assert(rest@ == old_rest.remove(i as int));
            assert(by_hw_id(all) == taken.push(m) + by_hw_id(rest@)) by {
                assert(taken + (seq![m] + by_hw_id(rest@)) =~= taken.push(m) + by_hw_id(rest@));
            }
            taken = taken.push(m);
        }
        let k = out.len();
        m.id = monitor_id_string(k + 1);
        out.push(m);
    }
    proof {
        assert(by_hw_id(rest@) =~= Seq::<Monitor>::empty());
        assert(taken =~= by_hw_id(all));
    }
    out
}

} // verus!
