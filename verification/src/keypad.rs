//! The 16-key input device: sixteen independent boolean key states,
//! addressed 0x0..0xF.

use vstd::prelude::*;

verus! {

/// Number of keys.
pub const NUM_KEYS: usize = 16;

/// The smallest pressed key number at or above `k`, if any key at or above
/// `k` is pressed.
pub open spec fn first_pressed_from(keys: Seq<bool>, k: int) -> Option<u8>
    decreases NUM_KEYS - k,
{
    if k < 0 || k >= NUM_KEYS {
        None
    } else if keys[k] {
        Some(k as u8)
    } else {
        first_pressed_from(keys, k + 1)
    }
}

/// The smallest pressed key number, if any key is pressed.
pub open spec fn first_pressed(keys: Seq<bool>) -> Option<u8> {
    first_pressed_from(keys, 0)
}

/// Sixteen boolean key states.
pub struct Keypad {
    keys: Vec<bool>,
}

impl View for Keypad {
    type V = Seq<bool>;

    closed spec fn view(&self) -> Seq<bool> {
        self.keys@
    }
}

impl Keypad {
    /// A keypad holds exactly sixteen key states.
    pub open spec fn wf(&self) -> bool {
        self@.len() == NUM_KEYS
    }

    /// A keypad with every key released.
    pub fn new() -> (k: Keypad)
        ensures
            k.wf(),
            k@ == Seq::new(NUM_KEYS as nat, |j: int| false),
    {
        let mut keys: Vec<bool> = Vec::new();
        let mut j: usize = 0;
        while j < NUM_KEYS
            invariant
                j == keys@.len(),
                j <= NUM_KEYS,
                forall|m: int| 0 <= m < j ==> !keys@[m],
            decreases NUM_KEYS - j,
        {
            keys.push(false);
            j = j + 1;
        }
        let k = Keypad { keys };
        proof {
            assert(k@ =~= Seq::new(NUM_KEYS as nat, |j: int| false));
        }
        k
    }

    /// Record that the key numbered `key` is pressed or released.
    pub fn set_key_state(&mut self, key: u8, pressed: bool)
        requires
            old(self).wf(),
            key < NUM_KEYS,
        ensures
            final(self).wf(),
            final(self)@ == old(self)@.update(key as int, pressed),
    {
        self.keys.set(key as usize, pressed);
    }

    /// Whether the key numbered `key` is pressed.
    pub fn is_pressed(&self, key: u8) -> (r: bool)
        requires
            self.wf(),
            key < NUM_KEYS,
        ensures
            r == self@[key as int],
    {
        self.keys[key as usize]
    }

    /// The smallest pressed key number, or `None` when no key is pressed.
    pub fn first_pressed_key(&self) -> (r: Option<u8>)
        requires
            self.wf(),
        ensures
            r == first_pressed(self@),
    {
        let mut k: usize = 0;
        while k < NUM_KEYS
            invariant
                self.wf(),
                k <= NUM_KEYS,
                first_pressed(self@) == first_pressed_from(self@, k as int),
            decreases NUM_KEYS - k,
        {
            if self.keys[k] {
                return Some(k as u8);
            }
            k = k + 1;
        }
        None
    }
}

} // verus!
