//! The keypad as the processor sees it: at most one key press waits to be
//! read.

use vstd::prelude::*;

verus! {

/// Holds the last key that was pressed and not yet taken. Its view is that
/// key, if there is one.
pub struct KeyBoard {
    pressed: Option<u8>,
}

impl View for KeyBoard {
    type V = Option<u8>;

    closed spec fn view(&self) -> Option<u8> {
        self.pressed
    }
}

impl KeyBoard {
    /// A keyboard on which `q` has just been pressed.
    pub fn new() -> (keyboard: Self)
        ensures
            keyboard@ == Some(0x71u8),
    {
        Self { pressed: Some(0x71) }
    }

    /// Records a key press; an earlier one that nobody took is forgotten.
    pub fn press(&mut self, key: u8)
        ensures
            final(self)@ == Some(key),
    {
        self.pressed = Some(key);
    }

    /// Whether a key press waits to be taken.
    pub fn has_key_press(&self) -> (waiting: bool)
        ensures
            waiting == self@.is_some(),
    {
        self.pressed.is_some()
    }

    /// Takes the waiting key press. Without one the processor has to wait:
    /// the caller looks with [`KeyBoard::has_key_press`] first.
    pub fn await_key_press(&mut self) -> (key: u8)
        requires
            old(self)@ is Some,
        ensures
            Some(key) == old(self)@,
            final(self)@ is None,
    {
        let key: u8 = match self.pressed {
            Some(key) => key,
            None => 0,
        };
        self.pressed = None;
        key
    }

    /// The key that was pressed last, or 0 if none waits.
    pub fn get_key_pressed(&self) -> (key: u8)
        ensures
            key == key_held(self@),
    {
        match self.pressed {
            Some(key) => key,
            None => 0,
        }
    }
}

/// The key that the skip instructions compare with: the waiting key press,
/// or 0 without one.
pub open spec fn key_held(pressed: Option<u8>) -> u8 {
    match pressed {
        Some(key) => key,
        None => 0,
    }
}

} // verus!
