use vstd::prelude::*;

use crate::laws::{law_add_keeps_valid, law_remove_keeps_valid};

verus! {

broadcast use vstd::seq_lib::group_seq_properties;

/// The events a handler manages: those it lists, or, when it lists none,
/// every event, registered under the event `0`.
pub open spec fn managed_events(events: Option<Vec<u32>>) -> Seq<u32> {
    match events {
        Some(v) => v@,
        None => seq![0u32],
    }
}

/// Some pair of `subscriptions` is about event `e`.
pub open spec fn has_sub(subscriptions: Set<(u32, u32)>, e: u32) -> bool {
    exists|k: u32| #[trigger] subscriptions.contains((e, k))
}

/// The abstract state of an event registry.
#[verifier::ext_equal]
pub struct RegistryModel {
    /// The pairs (event, handler key): which handler receives which event.
    pub subscriptions: Set<(u32, u32)>,
    /// The events holding a hook.
    pub hooked: Set<u32>,
    /// The keys of the handlers that are added and not removed.
    pub handlers: Set<u32>,
    /// The key the next added handler gets.
    pub next_key: u32,
}

impl RegistryModel {
    /// Every key in use was handed out already, and the events holding a
    /// hook are exactly those that some handler receives.
    pub open spec fn valid(self) -> bool {
        &&& forall|p: (u32, u32)| #[trigger] self.subscriptions.contains(p) ==> p.1 < self.next_key
        &&& forall|k: u32| #[trigger] self.handlers.contains(k) ==> k < self.next_key
        &&& forall|e: u32| #[trigger] self.hooked.contains(e) <==> has_sub(self.subscriptions, e)
    }

    /// The state after a handler managing `events` is added.
    pub open spec fn after_add(self, events: Seq<u32>) -> RegistryModel {
        RegistryModel {
            subscriptions: self.subscriptions.union(
                Set::new(|p: (u32, u32)| p.1 == self.next_key && events.contains(p.0)),
            ),
            hooked: self.hooked.union(events.to_set()),
            handlers: self.handlers.insert(self.next_key),
            next_key: (self.next_key + 1) as u32,
        }
    }

    /// The subscriptions left once handler `id` stops receiving `events`.
    pub open spec fn subscriptions_without(self, id: u32, events: Seq<u32>) -> Set<(u32, u32)> {
        Set::new(
            |p: (u32, u32)| self.subscriptions.contains(p) && !(p.1 == id && events.contains(p.0)),
        )
    }

    /// The events whose hook goes when handler `id` stops receiving
    /// `events`: those that it was the last to receive.
    pub open spec fn unhooked_by(self, id: u32, events: Seq<u32>) -> Set<u32> {
        Set::new(
            |e: u32|
                events.contains(e) && has_sub(self.subscriptions, e) && !has_sub(
                    self.subscriptions_without(id, events),
                    e,
                ) && self.hooked.contains(e),
        )
    }

    /// The state after handler `id`, which reports managing `events`, is
    /// removed; nothing changes for a key not added.
    pub open spec fn after_remove(self, id: u32, events: Seq<u32>) -> RegistryModel {
        if !self.handlers.contains(id) {
            self
        } else {
            RegistryModel {
                subscriptions: self.subscriptions_without(id, events),
                hooked: self.hooked.difference(self.unhooked_by(id, events)),
                handlers: self.handlers.remove(id),
                next_key: self.next_key,
            }
        }
    }

    /// The added handlers that receive event `e`.
    pub open spec fn receivers(self, e: u32) -> Set<u32> {
        Set::new(|k: u32| self.subscriptions.contains((e, k)) && self.handlers.contains(k))
    }
}

/// Which handlers receive which system events, and which events hold a
/// system hook. Handlers are known by the keys handed out when they are
/// added; the hooks and the handlers themselves are kept by the caller,
/// which performs what the registry decides.
pub struct EventRegistry {
    subscriptions: Vec<(u32, u32)>,
    hooked: Vec<u32>,
    handlers: Vec<u32>,
    counter: u32,
}

impl EventRegistry {
    /// The pairs (event, handler key) of the subscriptions.
    pub closed spec fn subscriptions(&self) -> Set<(u32, u32)> {
        self.subscriptions@.to_set()
    }

    /// The events holding a hook.
    pub closed spec fn hooked(&self) -> Set<u32> {
        self.hooked@.to_set()
    }

    /// The keys of the handlers that are added and not removed.
    pub closed spec fn handlers(&self) -> Set<u32> {
        self.handlers@.to_set()
    }

    /// The key the next added handler gets.
    pub closed spec fn spec_next_key(&self) -> u32 {
        self.counter
    }

    pub closed spec fn wf(&self) -> bool {
        &&& self.subscriptions@.no_duplicates()
        &&& self.model().valid()
    }

    pub open spec fn model(&self) -> RegistryModel {
        RegistryModel {
            subscriptions: self.subscriptions(),
            hooked: self.hooked(),
            handlers: self.handlers(),
            next_key: self.next_key(),
        }
    }

    /// Some handler receives event `e`.
    pub open spec fn has_subscribers(&self, e: u32) -> bool {
        has_sub(self.subscriptions(), e)
    }

    /// A well-formed registry has a valid model: every key in use was
    /// handed out already, so the next key holds no subscription and names
    /// no handler, and the hooked events are those some handler receives.
    pub proof fn lemma_wf_valid(&self)
        requires
            self.wf(),
        ensures
            self.model().valid(),
            forall|p: (u32, u32)| #[trigger] self.subscriptions().contains(p) ==> p.1 != self.next_key(),
            !self.handlers().contains(self.next_key()),
    {
        let m = self.model();
        assert forall|p: (u32, u32)| #[trigger] self.subscriptions().contains(p) implies p.1
            != self.next_key() by {
            assert(m.subscriptions.contains(p));
        }
        if self.handlers().contains(self.next_key()) {
            assert(m.handlers.contains(m.next_key));
        }
    }

    pub fn new() -> (r: EventRegistry)
        ensures
            r.wf(),
            r.subscriptions() == Set::<(u32, u32)>::empty(),
            r.hooked() == Set::<u32>::empty(),
            r.handlers() == Set::<u32>::empty(),
            r.next_key() == 0,
    {
        let r = EventRegistry {
            subscriptions: Vec::new(),
            hooked: Vec::new(),
            handlers: Vec::new(),
            counter: 0,
        };
        assert(r.subscriptions@.to_set() =~= Set::empty());
        assert(r.hooked@.to_set() =~= Set::empty());
        assert(r.handlers@.to_set() =~= Set::empty());
        r
    }

    /// The key the next added handler gets.
    #[verifier::when_used_as_spec(spec_next_key)]
    pub fn next_key(&self) -> (k: u32)
        ensures
            k == self.spec_next_key(),
    {
        self.counter
    }

    /// Adds a handler that manages `events` (every event when `None`). It
    /// gets the next key; it receives each of its events; each event gets a
    /// hook. The result holds the key and, for each managed event in order,
    /// whether its hook is the one kept: a hook is made for every managed
    /// event, and is kept only when that event held none before.
    pub fn add(&mut self, events: &Option<Vec<u32>>) -> (r: (u32, Vec<(u32, bool)>))
        requires
            old(self).wf(),
            old(self).next_key() < u32::MAX,
        ensures
            final(self).wf(),
            final(self).model() == old(self).model().after_add(managed_events(*events)),
            r.0 == old(self).next_key(),
            !old(self).handlers().contains(r.0),
            forall|p: (u32, u32)| #[trigger] old(self).subscriptions().contains(p) ==> p.1 != r.0,
            final(self).next_key() == old(self).next_key() + 1,
            final(self).handlers() == old(self).handlers().insert(r.0),
            final(self).hooked() == old(self).hooked().union(managed_events(*events).to_set()),
            forall|p: (u32, u32)| #[trigger]
                final(self).subscriptions().contains(p) <==> (old(self).subscriptions().contains(p) || (
                p.1 == r.0 && managed_events(*events).contains(p.0))),
            r.1@.len() == managed_events(*events).len(),
            forall|i: int|
                0 <= i < r.1@.len() ==> #[trigger] r.1@[i] == (
                    managed_events(*events)[i],
                    !old(self).hooked().contains(managed_events(*events)[i])
                        && !managed_events(*events).take(i).contains(managed_events(*events)[i]),
                ),
    {
        let key = self.counter;
        let evs: Vec<u32> = match events {
            Some(v) => v.clone(),
            None => vec![0u32],
        };
        assert(evs@ == managed_events(*events));
        let ghost old_hooked = self.hooked@;
        let ghost old_subs = self.subscriptions@;
        let mut hooks: Vec<(u32, bool)> = Vec::new();
        let n = evs.len();
        for i in 0..n
            invariant
                n == evs@.len(),
                self.counter == key,
                self.handlers == old(self).handlers,
                self.subscriptions@.no_duplicates(),
                forall|x: u32| #[trigger]
                    self.hooked@.contains(x) <==> (old_hooked.contains(x) || evs@.take(i as int).contains(x)),
                forall|p: (u32, u32)| #[trigger]
                    self.subscriptions@.contains(p) <==> (old_subs.contains(p) || (p.1 == key
                        && evs@.take(i as int).contains(p.0))),
                hooks@.len() == i,
                forall|j: int|
                    0 <= j < i ==> #[trigger] hooks@[j] == (
                        evs@[j],
                        !old_hooked.to_set().contains(evs@[j]) && !evs@.take(j).contains(evs@[j]),
                    ),
        {
            let e = evs[i];
            assert(evs@.take(i + 1) =~= evs@.take(i as int).push(e));
            let was_hooked = contains_u32(&self.hooked, e);
            hooks.push((e, !was_hooked));
            if !was_hooked {
                self.hooked.push(e);
            }
            if !contains_pair(&self.subscriptions, (e, key)) {
                self.subscriptions.push((e, key));
            }
        }
        assert(evs@.take(n as int) =~= evs@);
        self.handlers.push(key);
        assert(self.handlers@.to_set() =~= old(self).handlers@.to_set().insert(key));
        assert(self.hooked@.to_set() =~= old_hooked.to_set().union(evs@.to_set()));
        assert(old_hooked.to_set() == old(self).hooked());
        self.counter = key + 1;
        proof {
            let ghost m = old(self).model();
            let ghost evs_s = managed_events(*events);
            assert(self.subscriptions() =~= m.after_add(evs_s).subscriptions);
            assert(self.hooked() =~= m.after_add(evs_s).hooked);
            assert(self.model() =~= m.after_add(evs_s));
            law_add_keeps_valid(m, evs_s);
        }
        (key, hooks)
    }

    /// Removes handler `id`, which reports that it manages `events`, if it
    /// is added: it no longer receives those events. An event that no
    /// handler receives any more loses its hook; the result lists those
    /// events, each once. Nothing changes for a key that is not added.
    pub fn remove(&mut self, id: u32, events: &Option<Vec<u32>>) -> (unhooked: Vec<u32>)
        requires
            old(self).wf(),
        ensures
            final(self).wf(),
            final(self).model() == old(self).model().after_remove(id, managed_events(*events)),
            unhooked@.to_set() == (if old(self).handlers().contains(id) {
                old(self).model().unhooked_by(id, managed_events(*events))
            } else {
                Set::<u32>::empty()
            }),
            final(self).next_key() == old(self).next_key(),
            !old(self).handlers().contains(id) ==> *final(self) == *old(self) && unhooked@.len() == 0,
            old(self).handlers().contains(id) ==> {
                &&& final(self).handlers() == old(self).handlers().remove(id)
                &&& forall|p: (u32, u32)| #[trigger]
                    final(self).subscriptions().contains(p) <==> (old(self).subscriptions().contains(p)
                        && !(p.1 == id && managed_events(*events).contains(p.0)))
                &&& unhooked@.no_duplicates()
                &&& forall|e: u32| #[trigger]
                    unhooked@.contains(e) <==> (managed_events(*events).contains(e)
                        && old(self).has_subscribers(e) && !final(self).has_subscribers(e)
                        && old(self).hooked().contains(e))
                &&& final(self).hooked() == old(self).hooked().difference(unhooked@.to_set())
            },
    {
        if !contains_u32(&self.handlers, id) {
            let r: Vec<u32> = Vec::new();
            assert(r@.to_set() =~= Set::<u32>::empty());
            return r;
        }
        let ghost old_subs = self.subscriptions@;
        let ghost old_hooked = self.hooked@;
        let ghost old_handlers = self.handlers@;
        self.handlers = remove_all_u32(&self.handlers, id);
        let evs: Vec<u32> = match events {
            Some(v) => v.clone(),
            None => vec![0u32],
        };
        assert(evs@ == managed_events(*events));
        let mut unhooked: Vec<u32> = Vec::new();
        let n = evs.len();
        for i in 0..n
            invariant
                n == evs@.len(),
                self.counter == old(self).counter,
                self.handlers@.to_set() == old_handlers.to_set().remove(id),
                self.subscriptions@.no_duplicates(),
                forall|q: (u32, u32)| #[trigger]
                    self.subscriptions@.contains(q) <==> (old_subs.contains(q) && !(q.1 == id
                        && evs@.take(i as int).contains(q.0))),
                unhooked@.no_duplicates(),
                forall|x: u32| #[trigger]
                    unhooked@.contains(x) <==> (evs@.take(i as int).contains(x) && has_ev(old_subs, x)
                        && !has_ev(self.subscriptions@, x) && old_hooked.contains(x)),
                forall|x: u32| #[trigger]
                    self.hooked@.contains(x) <==> (old_hooked.contains(x) && !unhooked@.contains(x)),
        {
            let e = evs[i];
            assert(evs@.take(i + 1) =~= evs@.take(i as int).push(e));
            let ghost before = self.subscriptions@;
            let ghost unh_before = unhooked@;
            if has_event(&self.subscriptions, e) {
                self.subscriptions = remove_pair(&self.subscriptions, (e, id));
                if !has_event(&self.subscriptions, e) {
                    if contains_u32(&self.hooked, e) {
                        self.hooked = remove_all_u32(&self.hooked, e);
                        proof {
                            lemma_push_no_dup(unhooked@, e);
                        }
                        unhooked.push(e);
                    }
                }
            }
            proof {
                assert forall|q: (u32, u32)| #[trigger]
                    self.subscriptions@.contains(q) <==> (before.contains(q) && q != (e, id)) by {
                    if q == (e, id) && before.contains(q) {
                        assert(has_ev(before, e));
                    }
                }
                assert forall|q: (u32, u32)| #[trigger]
                    self.subscriptions@.contains(q) <==> (old_subs.contains(q) && !(q.1 == id
                        && evs@.take(i + 1).contains(q.0))) by {
                    lemma_push_contains(evs@.take(i as int), e, q.0);
                }
                lemma_remove_step(
                    old_subs,
                    before,
                    self.subscriptions@,
                    unh_before,
                    unhooked@,
                    evs@.take(i as int),
                    e,
                    id,
                    old_hooked,
                );
            }
        }
        assert(evs@.take(n as int) =~= evs@);
        assert(self.hooked@.to_set() =~= old_hooked.to_set().difference(unhooked@.to_set()));
        assert(self.handlers@.to_set() =~= old_handlers.to_set().remove(id));
        proof {
            assert forall|x: u32| #[trigger] unhooked@.contains(x) <==> (managed_events(*events).contains(x)
                && old(self).has_subscribers(x) && !self.has_subscribers(x)
                && old(self).hooked().contains(x)) by {
                assert(old(self).has_subscribers(x) == has_ev(old_subs, x)) by {
                    if old(self).has_subscribers(x) {
                        let k = choose|k: u32| #[trigger] old(self).subscriptions().contains((x, k));
                        assert(old_subs.contains((x, k)));
                    }
                    if has_ev(old_subs, x) {
                        let k = choose|k: u32| #[trigger] old_subs.contains((x, k));
                        assert(old(self).subscriptions().contains((x, k)));
                    }
                }
                assert(self.has_subscribers(x) == has_ev(self.subscriptions@, x)) by {
                    if self.has_subscribers(x) {
                        let k = choose|k: u32| #[trigger] self.subscriptions().contains((x, k));
                        assert(self.subscriptions@.contains((x, k)));
                    }
                    if has_ev(self.subscriptions@, x) {
                        let k = choose|k: u32| #[trigger] self.subscriptions@.contains((x, k));
                        assert(self.subscriptions().contains((x, k)));
                    }
                }
            }
            let m = old(self).model();
            let evs_s = managed_events(*events);
            assert(self.subscriptions() =~= m.subscriptions_without(id, evs_s));
            assert(unhooked@.to_set() =~= m.unhooked_by(id, evs_s));
            assert(self.model() =~= m.after_remove(id, evs_s));
            law_remove_keeps_valid(m, id, evs_s);
        }
        unhooked
    }

    /// The keys of the added handlers that receive `event`, each once, then
    /// those that receive every event, each once: the order in which the
    /// handlers are called when `event` happens.
    pub fn dispatch(&self, event: u32) -> (r: (Vec<u32>, Vec<u32>))
        requires
            self.wf(),
        ensures
            r.0@.no_duplicates(),
            r.1@.no_duplicates(),
            forall|k: u32| #[trigger]
                r.0@.contains(k) <==> (self.subscriptions().contains((event, k))
                    && self.handlers().contains(k)),
            forall|k: u32| #[trigger]
                r.1@.contains(k) <==> (self.subscriptions().contains((0u32, k))
                    && self.handlers().contains(k)),
            r.0@.to_set() == self.model().receivers(event),
            r.1@.to_set() == self.model().receivers(0),
    {
        let a = self.receivers(event);
        let b = self.receivers(0);
        assert(a@.to_set() =~= self.model().receivers(event));
        assert(b@.to_set() =~= self.model().receivers(0));
        (a, b)
    }

    fn receivers(&self, event: u32) -> (r: Vec<u32>)
        requires
            self.wf(),
        ensures
            r@.no_duplicates(),
            forall|k: u32| #[trigger]
                r@.contains(k) <==> (self.subscriptions().contains((event, k))
                    && self.handlers().contains(k)),
    {
        let mut r: Vec<u32> = Vec::new();
        let n = self.subscriptions.len();
        for i in 0..n
            invariant
                n == self.subscriptions@.len(),
                self.subscriptions@.no_duplicates(),
                r@.no_duplicates(),
                forall|k: u32| #[trigger]
                    r@.contains(k) <==> (self.subscriptions@.take(i as int).contains((event, k))
                        && self.handlers@.contains(k)),
        {
            let (e, k) = self.subscriptions[i];
            assert(self.subscriptions@.take(i + 1) =~= self.subscriptions@.take(i as int).push((e, k)));
            if e == event && contains_u32(&self.handlers, k) {
                assert(!self.subscriptions@.take(i as int).contains((e, k))) by {
                    if self.subscriptions@.take(i as int).contains((e, k)) {
                        let j = choose|j: int|
                            0 <= j < i && #[trigger] self.subscriptions@.take(i as int)[j] == (e, k);
                        assert(self.subscriptions@[j] == self.subscriptions@[i as int]);
                    }
                }
                proof {
                    lemma_push_no_dup(r@, k);
                }
                r.push(k);
            }
        }
        assert(self.subscriptions@.take(n as int) =~= self.subscriptions@);
        r
    }
}

/// Some pair of `s` is about event `e`.
spec fn has_ev(s: Seq<(u32, u32)>, e: u32) -> bool {
    exists|k: u32| #[trigger] s.contains((e, k))
}

proof fn lemma_push_contains<A>(s: Seq<A>, v: A, x: A)
    ensures
        s.push(v).contains(x) <==> (s.contains(x) || x == v),
{
    if s.push(v).contains(x) {
        let i = choose|i: int| 0 <= i < s.len() + 1 && s.push(v)[i] == x;
        if i < s.len() {
            assert(s[i] == x);
        }
    }
    if s.contains(x) {
        let i = choose|i: int| 0 <= i < s.len() && s[i] == x;
        assert(s.push(v)[i] == x);
    }
    if x == v {
        assert(s.push(v)[s.len() as int] == v);
    }
}

/// One event of a removed handler processed: what the unhooked list says
/// before and after it.
proof fn lemma_remove_step(
    old_subs: Seq<(u32, u32)>,
    before: Seq<(u32, u32)>,
    after: Seq<(u32, u32)>,
    unh_before: Seq<u32>,
    unh_after: Seq<u32>,
    prev: Seq<u32>,
    e: u32,
    id: u32,
    old_hooked: Seq<u32>,
)
    requires
        forall|q: (u32, u32)| #[trigger]
            before.contains(q) <==> (old_subs.contains(q) && !(q.1 == id && prev.contains(q.0))),
        forall|q: (u32, u32)| #[trigger] after.contains(q) <==> (before.contains(q) && q != (e, id)),
        forall|x: u32| #[trigger]
            unh_before.contains(x) <==> (prev.contains(x) && has_ev(old_subs, x) && !has_ev(before, x)
                && old_hooked.contains(x)),
        unh_after == (if has_ev(before, e) && !has_ev(after, e) && old_hooked.contains(e)
            && !unh_before.contains(e) {
            unh_before.push(e)
        } else {
            unh_before
        }),
    ensures
        forall|x: u32| #[trigger]
            unh_after.contains(x) <==> (prev.push(e).contains(x) && has_ev(old_subs, x) && !has_ev(
                after,
                x,
            ) && old_hooked.contains(x)),
{
    assert forall|x: u32| #[trigger]
        unh_after.contains(x) <==> (prev.push(e).contains(x) && has_ev(old_subs, x) && !has_ev(after, x)
            && old_hooked.contains(x)) by {
        lemma_push_contains(prev, e, x);
        lemma_push_contains(unh_before, e, x);
        if x != e {
            if has_ev(after, x) {
                let k = choose|k: u32| #[trigger] after.contains((x, k));
                assert(before.contains((x, k)));
            }
            if has_ev(before, x) {
                let k = choose|k: u32| #[trigger] before.contains((x, k));
                assert(after.contains((x, k)));
            }
        } else if prev.contains(e) {
            if has_ev(before, e) {
                let k = choose|k: u32| #[trigger] before.contains((e, k));
                assert(after.contains((e, k)));
            }
            if has_ev(after, e) {
                let k = choose|k: u32| #[trigger] after.contains((e, k));
                assert(before.contains((e, k)));
            }
        } else {
            if has_ev(before, e) {
                let k = choose|k: u32| #[trigger] before.contains((e, k));
                assert(old_subs.contains((e, k)));
            }
            if has_ev(old_subs, e) {
                let k = choose|k: u32| #[trigger] old_subs.contains((e, k));
                assert(before.contains((e, k)));
            }
        }
    }
}

fn contains_u32(v: &Vec<u32>, x: u32) -> (b: bool)
    ensures
        b == v@.contains(x),
        b == v@.to_set().contains(x),
{
    let n = v.len();
    for i in 0..n
        invariant
            n == v@.len(),
            forall|j: int| 0 <= j < i ==> v@[j] != x,
    {
        if v[i] == x {
            return true;
        }
    }
    false
}

fn contains_pair(v: &Vec<(u32, u32)>, x: (u32, u32)) -> (b: bool)
    ensures
        b == v@.contains(x),
{
    let n = v.len();
    for i in 0..n
        invariant
            n == v@.len(),
            forall|j: int| 0 <= j < i ==> v@[j] != x,
    {
        if v[i].0 == x.0 && v[i].1 == x.1 {
            return true;
        }
    }
    false
}

fn has_event(v: &Vec<(u32, u32)>, e: u32) -> (b: bool)
    ensures
        b == has_ev(v@, e),
{
    let n = v.len();
    for i in 0..n
        invariant
            n == v@.len(),
            forall|j: int| 0 <= j < i ==> v@[j].0 != e,
    {
        if v[i].0 == e {
            assert(v@.contains((e, v@[i as int].1)));
            return true;
        }
    }
    assert forall|k: u32| !v@.contains((e, k)) by {
        if v@.contains((e, k)) {
            let j = choose|j: int| 0 <= j < n && v@[j] == (e, k);
        }
    }
    false
}

fn remove_all_u32(v: &Vec<u32>, x: u32) -> (r: Vec<u32>)
    ensures
        r@.to_set() == v@.to_set().remove(x),
        forall|y: u32| #[trigger] r@.contains(y) <==> (v@.contains(y) && y != x),
{
    let mut r: Vec<u32> = Vec::new();
    let n = v.len();
    for i in 0..n
        invariant
            n == v@.len(),
            forall|y: u32| #[trigger] r@.contains(y) <==> (v@.take(i as int).contains(y) && y != x),
    {
        assert(v@.take(i + 1) =~= v@.take(i as int).push(v@[i as int]));
        if v[i] != x {
            r.push(v[i]);
        }
    }
    assert(v@.take(n as int) =~= v@);
    assert(r@.to_set() =~= v@.to_set().remove(x));
    r
}

fn remove_pair(v: &Vec<(u32, u32)>, x: (u32, u32)) -> (r: Vec<(u32, u32)>)
    requires
        v@.no_duplicates(),
    ensures
        r@.no_duplicates(),
        forall|y: (u32, u32)| #[trigger] r@.contains(y) <==> (v@.contains(y) && y != x),
{
    let mut r: Vec<(u32, u32)> = Vec::new();
    let n = v.len();
    for i in 0..n
        invariant
            n == v@.len(),
            v@.no_duplicates(),
            r@.no_duplicates(),
            forall|y: (u32, u32)| #[trigger]
                r@.contains(y) <==> (v@.take(i as int).contains(y) && y != x),
    {
        let y = v[i];
        assert(v@.take(i + 1) =~= v@.take(i as int).push(y));
        if !(y.0 == x.0 && y.1 == x.1) {
            assert(!v@.take(i as int).contains(y)) by {
                if v@.take(i as int).contains(y) {
                    let j = choose|j: int| 0 <= j < i && #[trigger] v@.take(i as int)[j] == y;
                    assert(v@[j] == v@[i as int]);
                }
            }
            proof {
                lemma_push_no_dup(r@, y);
            }
            r.push(y);
        }
    }
    assert(v@.take(n as int) =~= v@);
    r
}

proof fn lemma_push_no_dup<A>(s: Seq<A>, x: A)
    requires
        s.no_duplicates(),
        !s.contains(x),
    ensures
        s.push(x).no_duplicates(),
{
    assert forall|i: int, j: int| 0 <= i < j < s.len() + 1 implies s.push(x)[i] != s.push(x)[j] by {
        if j == s.len() {
            assert(s.push(x)[i] == s[i]);
        }
    }
}

} // verus!
