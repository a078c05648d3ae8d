use vstd::prelude::*;

use crate::result::TilesManagerError;

verus! {

/// The layer a container shows: all its windows, a single focalized window,
/// or the two windows of a half focalized monitor.
#[derive(Debug, Hash, PartialEq, Eq, Clone, Copy, Structural)]
pub enum ContainerLayer {
    Normal,
    Focalized,
    HalfFocalized,
}

impl ContainerLayer {
    pub open spec fn spec_is_focalized(self) -> bool {
        self == ContainerLayer::Focalized || self == ContainerLayer::HalfFocalized
    }

    /// Whether the layer is focalized or half focalized.
    pub fn is_focalized(&self) -> (b: bool)
        ensures
            b == self.spec_is_focalized(),
    {
        matches!(self, ContainerLayer::Focalized | ContainerLayer::HalfFocalized)
    }

    /// Whether the layer is focalized or half focalized.
    pub fn is_focalized_or_half(&self) -> (b: bool)
        ensures
            b == self.spec_is_focalized(),
    {
        matches!(self, ContainerLayer::Focalized | ContainerLayer::HalfFocalized)
    }
}

/// Whether two strings hold the same text.
pub fn same_text(a: &String, b: &String) -> (r: bool)
    ensures
        r == (a@ == b@),
{
    a.eq(b)
}

/// Identifies a container: a virtual desktop, a monitor and a layer.
#[derive(Debug, Hash, Clone)]
pub struct ContainerKey {
    pub vd: u128,
    pub monitor: String,
    pub layer: ContainerLayer,
}

/// A container key compared and hashed without its layer.
#[derive(Debug, Clone)]
pub struct CrossLayerContainerKey {
    pub vd: u128,
    pub monitor: String,
    pub layer: ContainerLayer,
}

/// A container key compared and hashed by its monitor alone: at any time a
/// monitor shows one active container.
#[derive(Debug, Clone)]
pub struct ActiveContainerKey {
    pub vd: u128,
    pub monitor: String,
}

/// Keys that belong to a virtual desktop.
pub trait ContainerKeyTrait {
    spec fn key_vd(&self) -> u128;

    fn is_vd(&self, vd: u128) -> (b: bool)
        ensures
            b == (self.key_vd() == vd),
    ;
}

impl ContainerKey {
    /// Two keys name the same container.
    pub open spec fn same(self, other: ContainerKey) -> bool {
        self.vd == other.vd && self.monitor@ == other.monitor@ && self.layer == other.layer
    }

    pub fn new(vd: u128, monitor: String, layer: ContainerLayer) -> (k: Self)
        ensures
            k.vd == vd,
            k.monitor == monitor,
            k.layer == layer,
    {
        ContainerKey { vd, monitor, layer }
    }

    pub fn is_vd(&self, vd: u128) -> (b: bool)
        ensures
            b == (self.vd == vd),
    {
        self.vd == vd
    }

    pub fn is_monitor(&self, monitor: &str) -> (b: bool)
        ensures
            b == (self.monitor@ == monitor@),
    {
        let m = monitor.to_owned();
        same_text(&self.monitor, &m)
    }

    pub fn is_layer(&self, layer: ContainerLayer) -> (b: bool)
        ensures
            b == (self.layer == layer),
    {
        self.layer == layer
    }

    /// The key of the normal layer of a monitor.
    pub fn normal(vd: u128, monitor: String) -> (k: Self)
        ensures
            k.vd == vd,
            k.monitor == monitor,
            k.layer == ContainerLayer::Normal,
    {
        ContainerKey { vd, monitor, layer: ContainerLayer::Normal }
    }

    /// The key of the focalized layer of a monitor.
    pub fn focalized(vd: u128, monitor: String) -> (k: Self)
        ensures
            k.vd == vd,
            k.monitor == monitor,
            k.layer == ContainerLayer::Focalized,
    {
        ContainerKey { vd, monitor, layer: ContainerLayer::Focalized }
    }

    /// The key of the half focalized layer of a monitor.
    pub fn half_focalized(vd: u128, monitor: String) -> (k: Self)
        ensures
            k.vd == vd,
            k.monitor == monitor,
            k.layer == ContainerLayer::HalfFocalized,
    {
        ContainerKey { vd, monitor, layer: ContainerLayer::HalfFocalized }
    }

    /// The key of the normal layer of the same monitor and desktop.
    pub fn to_normal(&self) -> (k: Self)
        ensures
            k.vd == self.vd,
            k.monitor == self.monitor,
            k.layer == ContainerLayer::Normal,
    {
        ContainerKey { vd: self.vd, monitor: self.monitor.clone(), layer: ContainerLayer::Normal }
    }

    /// Whether two keys name the same container.
    pub fn same_key(&self, other: &ContainerKey) -> (b: bool)
        ensures
            b == self.same(*other),
    {
        self.vd == other.vd && self.layer == other.layer && same_text(&self.monitor, &other.monitor)
    }
}

impl ContainerKeyTrait for ContainerKey {
    open spec fn key_vd(&self) -> u128 {
        self.vd
    }

    fn is_vd(&self, vd: u128) -> (b: bool) {
        self.vd == vd
    }
}

impl ContainerKeyTrait for ActiveContainerKey {
    open spec fn key_vd(&self) -> u128 {
        self.vd
    }

    fn is_vd(&self, vd: u128) -> (b: bool) {
        self.vd == vd
    }
}

impl PartialEq for CrossLayerContainerKey {
    fn eq(&self, other: &Self) -> (r: bool) {
        self.vd == other.vd && same_text(&self.monitor, &other.monitor)
    }
}

impl vstd::std_specs::cmp::PartialEqSpecImpl for CrossLayerContainerKey {
    open spec fn obeys_eq_spec() -> bool {
        true
    }

    open spec fn eq_spec(&self, other: &Self) -> bool {
        self.vd == other.vd && self.monitor@ == other.monitor@
    }
}

impl Eq for CrossLayerContainerKey {
}

impl PartialEq for ActiveContainerKey {
    fn eq(&self, other: &Self) -> (r: bool) {
        same_text(&self.monitor, &other.monitor)
    }
}

impl vstd::std_specs::cmp::PartialEqSpecImpl for ActiveContainerKey {
    open spec fn obeys_eq_spec() -> bool {
        true
    }

    open spec fn eq_spec(&self, other: &Self) -> bool {
        self.monitor@ == other.monitor@
    }
}

impl Eq for ActiveContainerKey {
}

impl From<ContainerKey> for CrossLayerContainerKey {
    fn from(value: ContainerKey) -> (r: Self) {
        CrossLayerContainerKey { vd: value.vd, monitor: value.monitor, layer: value.layer }
    }
}

impl vstd::std_specs::convert::FromSpecImpl<ContainerKey> for CrossLayerContainerKey {
    open spec fn obeys_from_spec() -> bool {
        true
    }

    open spec fn from_spec(v: ContainerKey) -> Self {
        CrossLayerContainerKey { vd: v.vd, monitor: v.monitor, layer: v.layer }
    }
}

impl From<CrossLayerContainerKey> for ContainerKey {
    fn from(value: CrossLayerContainerKey) -> (r: Self) {
        ContainerKey::new(value.vd, value.monitor, value.layer)
    }
}

impl vstd::std_specs::convert::FromSpecImpl<CrossLayerContainerKey> for ContainerKey {
    open spec fn obeys_from_spec() -> bool {
        true
    }

    open spec fn from_spec(v: CrossLayerContainerKey) -> Self {
        ContainerKey { vd: v.vd, monitor: v.monitor, layer: v.layer }
    }
}

/// The active key of a container's monitor: its desktop and monitor.
impl From<ContainerKey> for ActiveContainerKey {
    fn from(value: ContainerKey) -> (r: Self) {
        ActiveContainerKey { vd: value.vd, monitor: value.monitor }
    }
}

impl vstd::std_specs::convert::FromSpecImpl<ContainerKey> for ActiveContainerKey {
    open spec fn obeys_from_spec() -> bool {
        true
    }

    open spec fn from_spec(v: ContainerKey) -> Self {
        ActiveContainerKey { vd: v.vd, monitor: v.monitor }
    }
}

/// The key of the container an active key names: its desktop and monitor,
/// with the normal layer, the one a container is made with.
impl From<ActiveContainerKey> for ContainerKey {
    fn from(value: ActiveContainerKey) -> (r: Self) {
        ContainerKey::normal(value.vd, value.monitor)
    }
}

impl vstd::std_specs::convert::FromSpecImpl<ActiveContainerKey> for ContainerKey {
    open spec fn obeys_from_spec() -> bool {
        true
    }

    open spec fn from_spec(v: ActiveContainerKey) -> Self {
        ContainerKey { vd: v.vd, monitor: v.monitor, layer: ContainerLayer::Normal }
    }
}

/// A container key together with what it names.
#[derive(Debug)]
pub struct ContainerEntry<K, V> {
    pub key: K,
    pub value: V,
}

impl<K, V> ContainerEntry<K, V> {
    pub fn new(key: K, value: V) -> (e: Self)
        ensures
            e.key == key,
            e.value == value,
    {
        Self { key, value }
    }
}

/// The trees of a monitor, one per layer, with the layer currently shown.
pub struct Container<T> {
    current: ContainerLayer,
    normal: T,
    focalized: T,
    half_focalized: T,
}

impl<T> Container<T> {
    pub closed spec fn spec_current(&self) -> ContainerLayer {
        self.current
    }

    /// The tree of a layer.
    pub closed spec fn layer_tree(&self, layer: ContainerLayer) -> T {
        match layer {
            ContainerLayer::Normal => self.normal,
            ContainerLayer::Focalized => self.focalized,
            ContainerLayer::HalfFocalized => self.half_focalized,
        }
    }

    /// A new container shows its normal layer.
    pub fn new(normal: T, focalized: T, half_focalized: T) -> (c: Self)
        ensures
            c.spec_current() == ContainerLayer::Normal,
            c.layer_tree(ContainerLayer::Normal) == normal,
            c.layer_tree(ContainerLayer::Focalized) == focalized,
            c.layer_tree(ContainerLayer::HalfFocalized) == half_focalized,
    {
        Self { current: ContainerLayer::Normal, normal, focalized, half_focalized }
    }

    /// The tree of the layer currently shown.
    pub fn tree(&self) -> (t: &T)
        ensures
            *t == self.layer_tree(self.spec_current()),
    {
        match self.current {
            ContainerLayer::Normal => &self.normal,
            ContainerLayer::Focalized => &self.focalized,
            ContainerLayer::HalfFocalized => &self.half_focalized,
        }
    }

    /// The tree of the given layer.
    pub fn get_tree(&self, ct: ContainerLayer) -> (t: &T)
        ensures
            *t == self.layer_tree(ct),
    {
        match ct {
            ContainerLayer::Normal => &self.normal,
            ContainerLayer::Focalized => &self.focalized,
            ContainerLayer::HalfFocalized => &self.half_focalized,
        }
    }

    /// The tree of the given layer, to be changed in place.
    pub fn get_tree_mut(&mut self, ct: ContainerLayer) -> (t: &mut T)
        ensures
            *t == old(self).layer_tree(ct),
            final(self).spec_current() == old(self).spec_current(),
            final(self).layer_tree(ct) == *final(t),
            forall|l: ContainerLayer| l != ct ==> #[trigger] final(self).layer_tree(l) == old(self).layer_tree(l),
    {
        match ct {
            ContainerLayer::Normal => &mut self.normal,
            ContainerLayer::Focalized => &mut self.focalized,
            ContainerLayer::HalfFocalized => &mut self.half_focalized,
        }
    }

    /// The tree of the layer currently shown, to be changed in place.
    pub fn tree_mut(&mut self) -> (t: &mut T)
        ensures
            *t == old(self).layer_tree(old(self).spec_current()),
            final(self).spec_current() == old(self).spec_current(),
            final(self).layer_tree(old(self).spec_current()) == *final(t),
            forall|l: ContainerLayer| l != old(self).spec_current() ==> #[trigger] final(self).layer_tree(l) == old(self).layer_tree(l),
    {
        let c = self.current;
        self.get_tree_mut(c)
    }

    pub fn current(&self) -> (l: ContainerLayer)
        ensures
            l == self.spec_current(),
    {
        self.current
    }

    /// Shows another layer; the trees are kept.
    pub fn set_current(&mut self, current: ContainerLayer)
        ensures
            final(self).spec_current() == current,
            forall|l: ContainerLayer| #[trigger] final(self).layer_tree(l) == old(self).layer_tree(l),
    {
        self.current = current;
    }
}

/// Containers by key, kept in insertion order.
pub struct ContainerMap<K, V> {
    entries: Vec<(K, V)>,
}

impl<K, V> ContainerMap<K, V> {
    pub closed spec fn seq(&self) -> Seq<(K, V)> {
        self.entries@
    }

    pub fn new() -> (m: Self)
        ensures
            m.seq() == Seq::<(K, V)>::empty(),
    {
        ContainerMap { entries: Vec::new() }
    }

    pub fn len(&self) -> (n: usize)
        ensures
            n == self.seq().len(),
    {
        self.entries.len()
    }

    /// Adds an entry after the others.
    pub fn push(&mut self, key: K, value: V)
        ensures
            final(self).seq() == old(self).seq().push((key, value)),
    {
        self.entries.push((key, value));
    }

    /// The entry at position `i`.
    pub fn entry(&self, i: usize) -> (e: &(K, V))
        requires
            i < self.seq().len(),
        ensures
            *e == self.seq()[i as int],
    {
        &self.entries[i]
    }
}

/// Maps of containers that can tell whether a virtual desktop has some.
pub trait ContainersMap<K> {
    spec fn holds_vd(&self, vd: u128) -> bool;

    fn has_vd(&self, vd: u128) -> (b: bool)
        ensures
            b == self.holds_vd(vd),
    ;
}

impl<K: ContainerKeyTrait, V> ContainersMap<K> for ContainerMap<K, V> {
    open spec fn holds_vd(&self, vd: u128) -> bool {
        exists|i: int| 0 <= i < self.seq().len() && (#[trigger] self.seq()[i]).0.key_vd() == vd
    }

    fn has_vd(&self, vd: u128) -> (b: bool) {
        let n = self.entries.len();
        for i in 0..n
            invariant
                n == self.entries@.len(),
                forall|j: int| 0 <= j < i ==> (#[trigger] self.entries@[j]).0.key_vd() != vd,
        {
            if self.entries[i].0.is_vd(vd) {
                assert(self.seq()[i as int].0.key_vd() == vd);
                return true;
            }
        }
        false
    }
}

/// The containers of the layers that are not shown, each with the time it
/// was last shown.
pub trait InactiveContainers<T> {
    spec fn inactive_seq(&self) -> Seq<(ContainerKey, (T, u128))>;

    /// The tree of the normal layer of the monitor and desktop of
    /// `base_key`: the first entry with that key.
    fn get_normal(&self, base_key: &ContainerKey) -> (r: Result<&T, TilesManagerError>)
        ensures
            match r {
                Ok(t) => exists|i: int|
                    0 <= i < self.inactive_seq().len() && is_normal_of(
                        #[trigger] self.inactive_seq()[i].0,
                        *base_key,
                    ) && self.inactive_seq()[i].1.0 == *t && forall|j: int|
                        0 <= j < i ==> !is_normal_of(
                            #[trigger] self.inactive_seq()[j].0,
                            *base_key,
                        ),
                Err(e) => e == TilesManagerError::ContainerNotFound { refresh: false }
                    && forall|j: int|
                    0 <= j < self.inactive_seq().len() ==> !is_normal_of(
                        #[trigger] self.inactive_seq()[j].0,
                        *base_key,
                    ),
            },
    ;

    /// Whether some container belongs to the virtual desktop `vd`.
    fn has_vd(&self, vd: u128) -> (b: bool)
        ensures
            b == exists|i: int|
                0 <= i < self.inactive_seq().len() && (#[trigger] self.inactive_seq()[i]).0.vd
                    == vd,
    ;
}

/// `k` is the key of the normal layer of the monitor and desktop of `base`.
pub open spec fn is_normal_of(k: ContainerKey, base: ContainerKey) -> bool {
    k.vd == base.vd && k.monitor@ == base.monitor@ && k.layer == ContainerLayer::Normal
}

impl<T> InactiveContainers<T> for ContainerMap<ContainerKey, (T, u128)> {
    open spec fn inactive_seq(&self) -> Seq<(ContainerKey, (T, u128))> {
        self.seq()
    }

    fn get_normal(&self, base_key: &ContainerKey) -> (r: Result<&T, TilesManagerError>) {
        let normal = base_key.to_normal();
        let n = self.entries.len();
        for i in 0..n
            invariant
                n == self.entries@.len(),
                normal.vd == base_key.vd && normal.monitor == base_key.monitor && normal.layer
                    == ContainerLayer::Normal,
                forall|j: int| 0 <= j < i ==> !is_normal_of(#[trigger] self.entries@[j].0, *base_key),
        {
            if self.entries[i].0.same_key(&normal) {
                let e = &self.entries[i];
                assert(is_normal_of(self.inactive_seq()[i as int].0, *base_key));
                return Ok(&e.1.0);
            }
        }
        Err(TilesManagerError::ContainerNotFound { refresh: false })
    }

    fn has_vd(&self, vd: u128) -> (b: bool) {
        let n = self.entries.len();
        for i in 0..n
            invariant
                n == self.entries@.len(),
                forall|j: int| 0 <= j < i ==> (#[trigger] self.entries@[j]).0.vd != vd,
        {
            if self.entries[i].0.is_vd(vd) {
                assert(self.seq()[i as int].0.vd == vd);
                return true;
            }
        }
        false
    }
}

/// The entry belongs to the virtual desktop `vd` and, when one is given,
/// to the layer `layer`.
pub open spec fn key_matches(k: ContainerKey, vd: u128, layer: Option<ContainerLayer>) -> bool {
    k.vd == vd && match layer {
        Some(l) => k.layer == l,
        None => true,
    }
}

/// Entry `j` of `s` matches the desktop and layer.
pub open spec fn matched_at(
    s: Seq<(ContainerKey, u128)>,
    vd: u128,
    layer: Option<ContainerLayer>,
    j: int,
) -> bool {
    key_matches(s[j].0, vd, layer)
}

/// `r` picks, for every monitor having matching entries among the first
/// `n`, the first of its matching entries with the latest timestamp.
#[verifier::opaque]
pub open spec fn is_latest_per_monitor(
    s: Seq<(ContainerKey, u128)>,
    vd: u128,
    layer: Option<ContainerLayer>,
    n: int,
    r: Seq<usize>,
) -> bool {
    &&& forall|a: int| 0 <= a < r.len() ==> #[trigger] r[a] < n && key_matches(s[r[a] as int].0, vd, layer)
    &&& forall|a: int, b: int|
        0 <= a < b < r.len() ==> s[#[trigger] r[a] as int].0.monitor@ != s[#[trigger] r[b] as int].0.monitor@
    &&& forall|j: int|
        0 <= j < n && #[trigger] matched_at(s, vd, layer, j) ==> exists|a: int|
            0 <= a < r.len() && s[#[trigger] r[a] as int].0.monitor@ == s[j].0.monitor@
    &&& forall|a: int, j: int|
        0 <= a < r.len() && 0 <= j < n && #[trigger] matched_at(s, vd, layer, j) && s[j].0.monitor@
            == s[#[trigger] r[a] as int].0.monitor@ ==> s[j].1 <= s[r[a] as int].1 && (j < r[a]
            ==> s[j].1 < s[r[a] as int].1)
}

proof fn lemma_latest_skip(
    s: Seq<(ContainerKey, u128)>,
    vd: u128,
    layer: Option<ContainerLayer>,
    i: int,
    r: Seq<usize>,
)
    requires
        0 <= i < s.len(),
        is_latest_per_monitor(s, vd, layer, i, r),
        !key_matches(s[i].0, vd, layer),
    ensures
        is_latest_per_monitor(s, vd, layer, i + 1, r),
{
    reveal(is_latest_per_monitor);
}

proof fn lemma_latest_push(
    s: Seq<(ContainerKey, u128)>,
    vd: u128,
    layer: Option<ContainerLayer>,
    i: int,
    r: Seq<usize>,
)
    requires
        0 <= i < s.len(),
        i <= usize::MAX,
        is_latest_per_monitor(s, vd, layer, i, r),
        key_matches(s[i].0, vd, layer),
        forall|b: int| 0 <= b < r.len() ==> s[#[trigger] r[b] as int].0.monitor@ != s[i].0.monitor@,
    ensures
        is_latest_per_monitor(s, vd, layer, i + 1, r.push(i as usize)),
{
    reveal(is_latest_per_monitor);
    let r1 = r.push(i as usize);
    assert forall|a: int, b: int| 0 <= a < b < r1.len() implies s[#[trigger] r1[a] as int].0.monitor@
        != s[#[trigger] r1[b] as int].0.monitor@ by {
        if b == r.len() {
            assert(s[r[a] as int].0.monitor@ != s[i].0.monitor@);
        } else {
            assert(s[r[a] as int].0.monitor@ != s[r[b] as int].0.monitor@);
        }
    }
    assert forall|j: int| 0 <= j < i + 1 && #[trigger] matched_at(s, vd, layer, j) implies exists|
        a: int,
    | 0 <= a < r1.len() && s[#[trigger] r1[a] as int].0.monitor@ == s[j].0.monitor@ by {
        if j == i {
            assert(r1[r.len() as int] == i);
        } else {
            let a = choose|a: int|
                0 <= a < r.len() && s[#[trigger] r[a] as int].0.monitor@ == s[j].0.monitor@;
            assert(r1[a] == r[a]);
        }
    }
    assert forall|a: int, j: int|
        0 <= a < r1.len() && 0 <= j < i + 1 && #[trigger] matched_at(s, vd, layer, j)
            && s[j].0.monitor@ == s[#[trigger] r1[a] as int].0.monitor@ implies s[j].1 <= s[r1[a] as int].1
        && (j < r1[a] ==> s[j].1 < s[r1[a] as int].1) by {
        if a == r.len() {
            if j < i {
                let b = choose|b: int|
                    0 <= b < r.len() && s[#[trigger] r[b] as int].0.monitor@ == s[j].0.monitor@;
                assert(s[r[b] as int].0.monitor@ != s[i].0.monitor@);
            }
        } else {
            assert(r1[a] == r[a]);
            if j == i {
                assert(s[r[a] as int].0.monitor@ != s[i].0.monitor@);
            }
        }
    }
}

proof fn lemma_latest_replace(
    s: Seq<(ContainerKey, u128)>,
    vd: u128,
    layer: Option<ContainerLayer>,
    i: int,
    r: Seq<usize>,
    p: int,
)
    requires
        0 <= i < s.len(),
        i <= usize::MAX,
        is_latest_per_monitor(s, vd, layer, i, r),
        key_matches(s[i].0, vd, layer),
        0 <= p < r.len(),
        s[r[p] as int].0.monitor@ == s[i].0.monitor@,
        s[i].1 > s[r[p] as int].1,
    ensures
        is_latest_per_monitor(s, vd, layer, i + 1, r.update(p, i as usize)),
{
    reveal(is_latest_per_monitor);
    let r1 = r.update(p, i as usize);
    assert forall|a: int, b: int| 0 <= a < b < r1.len() implies s[#[trigger] r1[a] as int].0.monitor@
        != s[#[trigger] r1[b] as int].0.monitor@ by {
        assert(s[r[a] as int].0.monitor@ != s[r[b] as int].0.monitor@);
    }
    assert forall|j: int| 0 <= j < i + 1 && #[trigger] matched_at(s, vd, layer, j) implies exists|
        a: int,
    | 0 <= a < r1.len() && s[#[trigger] r1[a] as int].0.monitor@ == s[j].0.monitor@ by {
        if j == i {
            assert(r1[p] == i);
        } else {
            let a = choose|a: int|
                0 <= a < r.len() && s[#[trigger] r[a] as int].0.monitor@ == s[j].0.monitor@;
            if a != p {
                assert(r1[a] == r[a]);
            } else {
                assert(r1[p] == i);
            }
        }
    }
    assert forall|a: int, j: int|
        0 <= a < r1.len() && 0 <= j < i + 1 && #[trigger] matched_at(s, vd, layer, j)
            && s[j].0.monitor@ == s[#[trigger] r1[a] as int].0.monitor@ implies s[j].1 <= s[r1[a] as int].1
        && (j < r1[a] ==> s[j].1 < s[r1[a] as int].1) by {
        if a == p {
            if j < i {
                assert(s[j].0.monitor@ == s[r[p] as int].0.monitor@);
                assert(s[j].1 <= s[r[p] as int].1);
            }
        } else {
            assert(r1[a] == r[a]);
            if j == i {
                assert(s[r[a] as int].0.monitor@ != s[r[p] as int].0.monitor@);
            }
        }
    }
}

proof fn lemma_latest_keep(
    s: Seq<(ContainerKey, u128)>,
    vd: u128,
    layer: Option<ContainerLayer>,
    i: int,
    r: Seq<usize>,
    p: int,
)
    requires
        0 <= i < s.len(),
        is_latest_per_monitor(s, vd, layer, i, r),
        key_matches(s[i].0, vd, layer),
        0 <= p < r.len(),
        s[r[p] as int].0.monitor@ == s[i].0.monitor@,
        s[i].1 <= s[r[p] as int].1,
    ensures
        is_latest_per_monitor(s, vd, layer, i + 1, r),
{
    reveal(is_latest_per_monitor);
    assert forall|j: int| 0 <= j < i + 1 && #[trigger] matched_at(s, vd, layer, j) implies exists|
        a: int,
    | 0 <= a < r.len() && s[#[trigger] r[a] as int].0.monitor@ == s[j].0.monitor@ by {
        if j == i {
            assert(s[r[p] as int].0.monitor@ == s[i].0.monitor@);
        }
    }
    assert forall|a: int, j: int|
        0 <= a < r.len() && 0 <= j < i + 1 && #[trigger] matched_at(s, vd, layer, j)
            && s[j].0.monitor@ == s[#[trigger] r[a] as int].0.monitor@ implies s[j].1 <= s[r[a] as int].1
        && (j < r[a] ==> s[j].1 < s[r[a] as int].1) by {
        if j == i && a != p {
            assert(s[r[a] as int].0.monitor@ != s[r[p] as int].0.monitor@);
        }
    }
}

/// Position in `picked` of the entry whose monitor is `monitor`.
fn position_of_monitor(
    entries: &Vec<(ContainerKey, u128)>,
    picked: &Vec<usize>,
    monitor: &String,
) -> (r: Option<usize>)
    requires
        forall|b: int| 0 <= b < picked@.len() ==> #[trigger] picked@[b] < entries@.len(),
    ensures
        match r {
            Some(p) => p < picked@.len() && entries@[picked@[p as int] as int].0.monitor@
                == monitor@,
            None => forall|b: int|
                0 <= b < picked@.len() ==> entries@[#[trigger] picked@[b] as int].0.monitor@
                    != monitor@,
        },
{
    let m = picked.len();
    for a in 0..m
        invariant
            m == picked@.len(),
            forall|b: int| 0 <= b < picked@.len() ==> #[trigger] picked@[b] < entries@.len(),
            forall|b: int|
                0 <= b < a ==> entries@[#[trigger] picked@[b] as int].0.monitor@ != monitor@,
    {
        let idx = picked[a];
        if same_text(&entries[idx].0.monitor, monitor) {
            return Some(a);
        }
    }
    None
}

/// For each monitor, the inactive container of the virtual desktop `vd`
/// (and of `layer`, when given) shown most recently: the first of the
/// latest ones. Positions in `entries`, one per monitor, in the order in
/// which the monitors first appear.
pub fn latest_keys(entries: &Vec<(ContainerKey, u128)>, vd: u128, layer: Option<ContainerLayer>) -> (r:
    Vec<usize>)
    ensures
        is_latest_per_monitor(entries@, vd, layer, entries@.len() as int, r@),
{
    let mut r: Vec<usize> = Vec::new();
    let n = entries.len();
    proof {
        reveal(is_latest_per_monitor);
    }
    for i in 0..n
        invariant
            n == entries@.len(),
            is_latest_per_monitor(entries@, vd, layer, i as int, r@),
            forall|b: int| 0 <= b < r@.len() ==> #[trigger] r@[b] < i,
    {
        let k = &entries[i].0;
        let ts = entries[i].1;
        let matches = k.vd == vd && match layer {
            Some(l) => k.layer == l,
            None => true,
        };
        assert(matches == key_matches(entries@[i as int].0, vd, layer));
        if !matches {
            proof {
                lemma_latest_skip(entries@, vd, layer, i as int, r@);
            }
        } else {
            match position_of_monitor(entries, &r, &k.monitor) {
                None => {
                    proof {
                        lemma_latest_push(entries@, vd, layer, i as int, r@);
                    }
                    r.push(i);
                },
                Some(pos) => {
                    let cur = r[pos];
                    if ts > entries[cur].1 {
                        proof {
                            lemma_latest_replace(entries@, vd, layer, i as int, r@, pos as int);
                        }
                        r.set(pos, i);
                    } else {
                        proof {
                            lemma_latest_keep(entries@, vd, layer, i as int, r@, pos as int);
                        }
                    }
                },
            }
        }
    }
    r
}

} // verus!
