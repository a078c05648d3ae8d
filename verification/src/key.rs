use vstd::prelude::*;

verus! {

/// State of a key: held down, and toggled (as caps lock is).
#[derive(Debug, Clone, Copy, PartialEq, Eq, Structural)]
pub struct KeyState {
    pub pressed: bool,
    pub toggled: bool,
}

impl KeyState {
    /// The state of a key from the value the system reports for it: bit 12
    /// tells whether it is pressed, bit 0 whether it is toggled.
    pub fn from_state(state: i16) -> (k: KeyState)
        ensures
            k.pressed == ((state as u16 / 0x1000) % 2 == 1),
            k.toggled == ((state as u16) % 2 == 1),
    {
        let bits = state as u16;
        assert((bits & 0x1000 != 0) == ((bits / 0x1000) % 2 == 1)) by (bit_vector);
        assert((bits & 0x0001 != 0) == (bits % 2 == 1)) by (bit_vector);
        KeyState { pressed: (bits & 0x1000) != 0, toggled: (bits & 0x0001) != 0 }
    }
}

} // verus!
