use vstd::prelude::*;

verus! {

/// A handle to a top level window, identified by its raw `HWND` value.
#[derive(Clone, Copy, Debug, PartialEq, Eq, Hash, Structural)]
pub struct WindowRef {
    pub hwnd: isize,
}

impl WindowRef {
    pub fn new(hwnd: isize) -> (w: WindowRef)
        ensures
            w.hwnd == hwnd,
    {
        WindowRef { hwnd }
    }
}

/// Whether a sequence holds no window twice.
pub open spec fn distinct_windows(s: Seq<WindowRef>) -> bool {
    forall|i: int, j: int| 0 <= i < j < s.len() ==> s[i] != s[j]
}

} // verus!
