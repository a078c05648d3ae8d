use vstd::prelude::*;

verus! {

/// The handlers a module has hooked to the system events, by the keys the
/// event dispatcher gave them.
pub struct WindowsEventManager {
    handlers_key: Vec<u32>,
}

impl WindowsEventManager {
    pub closed spec fn keys(&self) -> Seq<u32> {
        self.handlers_key@
    }

    pub fn new() -> (m: WindowsEventManager)
        ensures
            m.keys() == Seq::<u32>::empty(),
    {
        WindowsEventManager { handlers_key: Vec::new() }
    }

    /// Records the key of a handler just hooked.
    pub fn hook(&mut self, handler_key: u32)
        ensures
            final(self).keys() == old(self).keys().push(handler_key),
    {
        self.handlers_key.push(handler_key);
    }

    /// Forgets every hooked handler, returning their keys, in the order in
    /// which they were hooked, for the dispatcher to remove them.
    pub fn unhook_all(&mut self) -> (keys: Vec<u32>)
        ensures
            keys@ == old(self).keys(),
            final(self).keys() == Seq::<u32>::empty(),
    {
        let mut keys: Vec<u32> = Vec::new();
        let n = self.handlers_key.len();
        for i in 0..n
            invariant
                n == self.handlers_key@.len(),
                keys@ == self.handlers_key@.subrange(0, i as int),
        {
            keys.push(self.handlers_key[i]);
        }
        assert(keys@ =~= self.handlers_key@);
        self.handlers_key.clear();
        keys
    }
}

} // verus!
