//! The input capability as the core sees it: a snapshot of the sixteen
//! virtual key states, and the key index handed over by the external driver
//! for the blocking key-wait instruction. The driver owns the physical
//! keyboard and refreshes this state between cycles.

use vstd::prelude::*;

verus! {

/// The answers of the external input capability, held as plain data.
pub struct IO {
    /// Whether each of the sixteen virtual keys is currently pressed.
    pub pressed: [bool; 16],
    /// The key index, below sixteen, that the blocking key-wait returns.
    pub next_key: u8,
}

impl IO {
    pub open spec fn wf(&self) -> bool {
        self.next_key < 16
    }

    /// A capability with no key pressed and key zero queued.
    pub fn new() -> (io: IO)
        ensures
            io.wf(),
            forall|k: int| 0 <= k < 16 ==> !io.pressed@[k],
            io.next_key == 0,
    {
        IO { pressed: [false; 16], next_key: 0 }
    }

    /// The key that the external capability reported for a blocking wait.
    pub fn wait_for_key(&self) -> (key: u8)
        ensures
            key == self.next_key,
    {
        self.next_key
    }

    /// Whether the virtual key at `key_index` is currently pressed.
    pub fn is_key_pressed(&self, key_index: u8) -> (state: bool)
        requires
            key_index < 16,
        ensures
            state == self.pressed@[key_index as int],
    {
        self.pressed[key_index as usize]
    }

    /// Refresh the pressed-state snapshot; the driver calls this between
    /// cycles with what its event source reports.
    pub fn set_key_state(&mut self, pressed: [bool; 16])
        ensures
            final(self).pressed == pressed,
            final(self).next_key == old(self).next_key,
    {
        self.pressed = pressed;
    }

    /// Record the key that a blocking wait should return; the driver calls
    /// this after its event source delivered a key press.
    pub fn set_next_key(&mut self, key: u8)
        requires
            key < 16,
        ensures
            final(self).next_key == key,
            final(self).pressed == old(self).pressed,
    {
        self.next_key = key;
    }
}

/// The fixed mapping from the sixteen virtual keys to physical key
/// characters, owned by the external driver.
pub struct IOImpl {
    pub key_set: [char; 16],
}

impl IOImpl {
    pub fn new(key_set: [char; 16]) -> (io: IOImpl)
        ensures
            io.key_set == key_set,
    {
        IOImpl { key_set }
    }
}

/// Look a physical key up in a key set: the virtual key index of its first
/// occurrence when the set contains it, and nothing otherwise.
pub fn index(keyset: [char; 16], key: char) -> (found: Option<u8>)
    ensures
        match found {
            Some(i) => i < 16 && keyset@[i as int] == key && forall|j: int|
                0 <= j < i ==> keyset@[j] != key,
            None => !keyset@.contains(key),
        },
        found is Some <==> keyset@.contains(key),
{
    let mut i: usize = 0;
    while i < 16
        invariant
            i <= 16,
            forall|j: int| 0 <= j < i ==> keyset@[j] != key,
        decreases 16 - i,
    {
        if keyset[i] == key {
            proof {
                assert(keyset@.contains(key)) by {
                    assert(keyset@[i as int] == key);
                }
            }
            return Some(i as u8);
        }
        i = i + 1;
    }
    proof {
        assert(!keyset@.contains(key));
    }
    None
}

} // verus!
