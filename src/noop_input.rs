//! An input state that ignores the keyboard, for programs without input.
use vstd::prelude::*;

use crate::input::{InputState, KeyboardKey, KeyboardState, NextLoopState};

verus! {

/// An input state in which no key is ever down.
pub struct NoopInputState {}

impl NoopInputState {
    /// The input state.
    pub fn new() -> (r: Self) {
        NoopInputState {  }
    }
}

impl KeyboardState for NoopInputState {
    open spec fn key_pressed(&self, key: KeyboardKey) -> bool {
        false
    }

    open spec fn key_down(&self, key: KeyboardKey) -> bool {
        false
    }

    open spec fn key_released(&self, key: KeyboardKey) -> bool {
        true
    }

    fn is_key_pressed(&self, _key: KeyboardKey) -> (r: bool) {
        false
    }

    fn is_key_down(&self, _key: KeyboardKey) -> (r: bool) {
        false
    }

    fn is_key_released(&self, _key: KeyboardKey) -> (r: bool) {
        true
    }

    fn is_key_up(&self, _key: KeyboardKey) -> (r: bool) {
        true
    }
}

impl InputState for NoopInputState {
    open spec fn ready(&self) -> bool {
        true
    }

    fn begin(&mut self, _distinct_release_events: bool) {
    }

    fn next_loop(&mut self) -> (r: NextLoopState)
        ensures
            r == NextLoopState::Continue,
    {
        NextLoopState::Continue
    }

    fn finish(&mut self) {
    }
}

impl Default for NoopInputState {
    fn default() -> (r: Self) {
        Self::new()
    }
}

} // verus!
