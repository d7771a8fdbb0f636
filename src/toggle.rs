use vstd::prelude::*;
use crate::config::KeyCode;

verus! {

/// The toggle key of one axis; while it is held the axis is disabled.
#[derive(Clone, Copy, Debug, PartialEq, Eq, Structural)]
pub struct ToggleState {
    pub held: bool,
}

impl ToggleState {
    pub fn new() -> (r: Self)
        ensures
            !r.held,
    {
        ToggleState { held: false }
    }

    /// Takes this tick's key-down observation and returns whether the axis is
    /// disabled on this tick: exactly when the key is down.
    pub fn update(&mut self, is_key_down: bool) -> (disabled: bool)
        ensures
            disabled == is_key_down,
            final(self).held == is_key_down,
    {
        self.held = is_key_down;
        self.held
    }
}

/// Whether `key` is among the keys pressed this tick.
pub fn key_held(pressed: &Vec<KeyCode>, key: KeyCode) -> (r: bool)
    ensures
        r == pressed@.contains(key),
{
    let mut i: usize = 0;
    while i < pressed.len()
        invariant
            i <= pressed.len(),
            forall|j: int| 0 <= j < i ==> pressed@[j] != key,
        decreases pressed.len() - i,
    {
        if pressed[i] == key {
            return true;
        }
        i = i + 1;
    }
    false
}

} // verus!
