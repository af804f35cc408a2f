//! Sources of key presses. The engine itself never polls a keyboard: the
//! caller hands over, once per tick, the key codes that are held.

use vstd::prelude::*;

verus! {

/// Something that remembers which keys are held down. What an
/// implementation does with the keys it is told is its own affair; the
/// keyboard of this module states what it does.
pub trait Keyboard {
    /// Takes note of the keys held down at this tick.
    fn update_state(&mut self, keys: &[u8]);

    /// The keys held down.
    fn get_current_keydowns(&self) -> &Vec<u8>;
}

/// A keyboard without a device behind it: its state is whatever it was last
/// told, or whatever is put into `curr_keydowns` directly.
pub struct DummyKeyboard {
    pub curr_keydowns: Vec<u8>,
}

impl View for DummyKeyboard {
    type V = Seq<u8>;

    /// The key codes held down, in the order they were reported.
    open spec fn view(&self) -> Seq<u8> {
        self.curr_keydowns@
    }
}

impl DummyKeyboard {
    /// A keyboard with no key held down.
    pub fn initialise() -> (keyboard: Self)
        ensures
            keyboard@ == Seq::<u8>::empty(),
    {
        Self { curr_keydowns: Vec::new() }
    }
}

impl Keyboard for DummyKeyboard {
    /// Replaces the keys held down by `keys`.
    fn update_state(&mut self, keys: &[u8])
        ensures
            final(self)@ == keys@,
    {
        let mut held: Vec<u8> = Vec::new();
        let mut i: usize = 0;
        while i < keys.len()
            invariant
                i <= keys@.len(),
                held@ == keys@.take(i as int),
            decreases keys@.len() - i,
        {
            held.push(keys[i]);
            i += 1;
            assert(held@ =~= keys@.take(i as int));
        }
        assert(keys@.take(i as int) =~= keys@);
        self.curr_keydowns = held;
    }

    /// The keys held down.
    fn get_current_keydowns(&self) -> (keys: &Vec<u8>)
        ensures
            keys@ == self@,
    {
        &self.curr_keydowns
    }
}

} // verus!
