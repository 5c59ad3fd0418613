//! Keyboard state for a windowing backend, which reports both presses and
//! releases of keys.
use vstd::prelude::*;

use crate::input::{key_index, key_slot, InputState, KeyboardKey, KeyboardState, NextLoopState, KEY_COUNT};

verus! {

/// An event of a window, as far as the keyboard state is concerned.
#[derive(Debug, Clone, Copy, PartialEq, Eq, Structural)]
pub enum WindowEvent {
    /// A key went down (`pressed`) or up; `key` is `None` for keys without
    /// a keyboard key.
    Key { key: Option<KeyboardKey>, pressed: bool },
    /// Any other event.
    Other,
}

/// The state of one key: held, pressed during this update, released during this update.
pub struct WindowKeySlot {
    pub down: bool,
    pub pressed: bool,
    pub released: bool,
}

/// Slot `i` after `event`, from `s`; `clear` says whether this is the first
/// event since the last refresh, which starts the update's marks afresh.
pub open spec fn window_event_step(s: WindowKeySlot, clear: bool, event: WindowEvent, i: int) -> WindowKeySlot {
    let c = if clear {
        WindowKeySlot { down: s.down, pressed: false, released: false }
    } else {
        s
    };
    match event {
        WindowEvent::Key { key: Some(k), pressed } => if key_index(k) != i {
            c
        } else if pressed {
            WindowKeySlot { down: true, pressed: c.pressed || !c.down, released: c.released }
        } else {
            WindowKeySlot { down: false, pressed: c.pressed, released: c.released || c.down }
        },
        _ => c,
    }
}

/// Keyboard state fed by window events.
pub struct PixelsInputState {
    keys_down: Vec<bool>,
    keys_pressed_this_update: Vec<bool>,
    keys_released_this_update: Vec<bool>,
    clear_before_next_event: bool,
}

impl PixelsInputState {
    /// The tables hold one entry per key.
    pub closed spec fn wf(&self) -> bool {
        &&& self.keys_down@.len() == KEY_COUNT
        &&& self.keys_pressed_this_update@.len() == KEY_COUNT
        &&& self.keys_released_this_update@.len() == KEY_COUNT
    }

    /// The state of the key in table slot `i`.
    pub closed spec fn slot(&self, i: int) -> WindowKeySlot {
        WindowKeySlot {
            down: self.keys_down@[i],
            pressed: self.keys_pressed_this_update@[i],
            released: self.keys_released_this_update@[i],
        }
    }

    /// Whether the next event starts the update's marks afresh.
    pub closed spec fn clear_pending(&self) -> bool {
        self.clear_before_next_event
    }

    /// A state with no key held.
    pub fn new() -> (r: Self)
        ensures
            r.wf(),
            r.clear_pending(),
            forall|i: int|
                0 <= i < KEY_COUNT ==> #[trigger] r.slot(i) == (WindowKeySlot {
                    down: false,
                    pressed: false,
                    released: false,
                }),
    {
        let mut down: Vec<bool> = Vec::new();
        let mut pressed: Vec<bool> = Vec::new();
        let mut released: Vec<bool> = Vec::new();
        let mut i: usize = 0;
        while i < KEY_COUNT
            invariant
                i <= KEY_COUNT,
                down@.len() == i,
                pressed@.len() == i,
                released@.len() == i,
                forall|j: int| 0 <= j < i ==> !#[trigger] down@[j] && !pressed@[j] && !released@[j],
            decreases KEY_COUNT - i,
        {
            down.push(false);
            pressed.push(false);
            released.push(false);
            i = i + 1;
        }
        PixelsInputState {
            keys_down: down,
            keys_pressed_this_update: pressed,
            keys_released_this_update: released,
            clear_before_next_event: true,
        }
    }

    /// Takes in one window event: the first one after a refresh clears the
    /// update's pressed and released marks; a key event then updates its key.
    pub fn handle_new_event(&mut self, event: &WindowEvent)
        requires
            old(self).wf(),
        ensures
            final(self).wf(),
            !final(self).clear_pending(),
            forall|i: int|
                0 <= i < KEY_COUNT ==> #[trigger] final(self).slot(i) == window_event_step(
                    old(self).slot(i),
                    old(self).clear_pending(),
                    *event,
                    i,
                ),
    {
        if self.clear_before_next_event {
            let mut i: usize = 0;
            while i < KEY_COUNT
                invariant
                    self.wf(),
                    i <= KEY_COUNT,
                    self.keys_down == old(self).keys_down,
                    forall|j: int|
                        0 <= j < KEY_COUNT ==> #[trigger] self.keys_pressed_this_update@[j] == (j >= i
                            && old(self).keys_pressed_this_update@[j]),
                    forall|j: int|
                        0 <= j < KEY_COUNT ==> #[trigger] self.keys_released_this_update@[j] == (j
                            >= i && old(self).keys_released_this_update@[j]),
                decreases KEY_COUNT - i,
            {
                self.keys_pressed_this_update.set(i, false);
                self.keys_released_this_update.set(i, false);
                i = i + 1;
            }
            self.clear_before_next_event = false;
        }
        match *event {
            WindowEvent::Key { key: Some(k), pressed } => {
                let s = key_slot(k);
                let was_down = self.keys_down[s];
                if pressed {
                    if !was_down {
                        self.keys_pressed_this_update.set(s, true);
                    }
                    self.keys_down.set(s, true);
                } else {
                    if was_down {
                        self.keys_released_this_update.set(s, true);
                    }
                    self.keys_down.set(s, false);
                }
            },
            _ => {},
        }
    }
}

impl KeyboardState for PixelsInputState {
    closed spec fn key_pressed(&self, key: KeyboardKey) -> bool {
        key_index(key) < self.keys_pressed_this_update@.len()
            && self.keys_pressed_this_update@[key_index(key)]
    }

    closed spec fn key_down(&self, key: KeyboardKey) -> bool {
        key_index(key) < self.keys_down@.len() && self.keys_down@[key_index(key)]
    }

    closed spec fn key_released(&self, key: KeyboardKey) -> bool {
        key_index(key) < self.keys_released_this_update@.len()
            && self.keys_released_this_update@[key_index(key)]
    }

    fn is_key_pressed(&self, key: KeyboardKey) -> (r: bool)
        ensures
            self.wf() ==> r == self.slot(key_index(key)).pressed,
    {
        let s = key_slot(key);
        s < self.keys_pressed_this_update.len() && self.keys_pressed_this_update[s]
    }

    fn is_key_down(&self, key: KeyboardKey) -> (r: bool)
        ensures
            self.wf() ==> r == self.slot(key_index(key)).down,
    {
        let s = key_slot(key);
        s < self.keys_down.len() && self.keys_down[s]
    }

    fn is_key_released(&self, key: KeyboardKey) -> (r: bool)
        ensures
            self.wf() ==> r == self.slot(key_index(key)).released,
    {
        let s = key_slot(key);
        s < self.keys_released_this_update.len() && self.keys_released_this_update[s]
    }

    fn is_key_up(&self, key: KeyboardKey) -> (r: bool)
        ensures
            self.wf() ==> r == !(self.slot(key_index(key)).down),
    {
        !self.is_key_down(key)
    }
}

impl InputState for PixelsInputState {
    open spec fn ready(&self) -> bool {
        self.wf()
    }

    fn begin(&mut self, _distinct_release_events: bool) {
    }

    /// The next event starts a new update's marks.
    fn next_loop(&mut self) -> (r: NextLoopState)
        ensures
            r == NextLoopState::Continue,
            final(self).clear_pending(),
            forall|i: int| #[trigger] final(self).slot(i) == old(self).slot(i),
    {
        self.clear_before_next_event = true;
        NextLoopState::Continue
    }

    fn finish(&mut self) {
    }
}

} // verus!
