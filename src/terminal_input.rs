//! Keyboard state for a terminal backend.
//!
//! Terminals with enhanced keyboard reporting send distinct press, release
//! and repeat events. Others only send presses; there a key counts as held
//! for a number of refreshes after its last press and is then released.
use vstd::prelude::*;

use crate::input::{
    is_interrupt, key_for_code, key_index, key_slot, map_terminal_keycode, InputState,
    KeyEventKind, KeyboardKey, KeyboardState, NextLoopState, TerminalKeyCode, TerminalKeyEvent,
    INTERRUPT_EXIT_CODE, KEY_COUNT, MODIFIER_CONTROL,
};

verus! {

/// The state of one key: its countdown while held (`None` when up), and
/// whether it was pressed or released during the current update.
pub struct KeySlot {
    pub down: Option<usize>,
    pub pressed: bool,
    pub released: bool,
}

/// The table slot that event `e` concerns, or -1 when its code maps to no key.
pub open spec fn event_slot(e: TerminalKeyEvent) -> int {
    match key_for_code(e.code) {
        Some(k) => key_index(k),
        None => -1,
    }
}

/// One refresh of a held key's countdown: it drops by one, and at zero the key is up.
pub open spec fn countdown_step(c: Option<usize>) -> Option<usize> {
    match c {
        None => None,
        Some(n) => if n <= 1 {
            None
        } else {
            Some((n - 1) as usize)
        },
    }
}

/// The press events among the first `n` of `events` applied in order to the
/// slot `slot`, starting from `start`: a press sets the countdown to
/// `cycles`, and counts as a press of this update if the key was up.
pub open spec fn presses_upto(
    events: Seq<TerminalKeyEvent>,
    n: nat,
    slot: int,
    cycles: usize,
    start: KeySlot,
) -> KeySlot
    decreases n,
{
    if n == 0 {
        start
    } else {
        let prev = if n == 1 {
            start
        } else {
            presses_upto(events, (n - 1) as nat, slot, cycles, start)
        };
        let e = events[n - 1];
        if e.kind == KeyEventKind::Press && event_slot(e) == slot {
            KeySlot { down: Some(cycles), pressed: prev.pressed || prev.down is None, ..prev }
        } else {
            prev
        }
    }
}

/// The press events of `events` applied in order to the slot `slot`.
pub open spec fn apply_presses(
    events: Seq<TerminalKeyEvent>,
    slot: int,
    cycles: usize,
    start: KeySlot,
) -> KeySlot {
    presses_upto(events, events.len(), slot, cycles, start)
}

/// A refresh of slot `slot` in press-only mode: the countdown steps, the
/// queued presses apply, and a key whose countdown ran out and was not
/// pressed again counts as released.
pub open spec fn fallback_refresh(
    s: KeySlot,
    events: Seq<TerminalKeyEvent>,
    slot: int,
    cycles: usize,
) -> KeySlot {
    let stepped = countdown_step(s.down);
    let after = apply_presses(
        events,
        slot,
        cycles,
        KeySlot { down: stepped, pressed: false, released: s.down is Some && stepped is None },
    );
    KeySlot { released: after.released && after.down is None, ..after }
}

/// The first `n` key events of `events` applied in order to slot `slot` in
/// enhanced mode, starting from `start`: a press of an up key marks it
/// pressed, a release of a held key marks it released, repeats change nothing.
pub open spec fn enhanced_upto(
    events: Seq<TerminalKeyEvent>,
    n: nat,
    slot: int,
    cycles: usize,
    start: KeySlot,
) -> KeySlot
    decreases n,
{
    if n == 0 {
        start
    } else {
        let prev = if n == 1 {
            start
        } else {
            enhanced_upto(events, (n - 1) as nat, slot, cycles, start)
        };
        let e = events[n - 1];
        if event_slot(e) != slot {
            prev
        } else if e.kind == KeyEventKind::Press {
            KeySlot { down: Some(cycles), pressed: prev.pressed || prev.down is None, ..prev }
        } else if e.kind == KeyEventKind::Release {
            KeySlot { down: None, released: prev.released || prev.down is Some, ..prev }
        } else {
            prev
        }
    }
}

/// The key events of `events` applied in order to slot `slot` in enhanced mode.
pub open spec fn apply_enhanced(
    events: Seq<TerminalKeyEvent>,
    slot: int,
    cycles: usize,
    start: KeySlot,
) -> KeySlot {
    enhanced_upto(events, events.len(), slot, cycles, start)
}

/// A refresh of slot `slot` in enhanced mode.
pub open spec fn enhanced_refresh(
    s: KeySlot,
    events: Seq<TerminalKeyEvent>,
    slot: int,
    cycles: usize,
) -> KeySlot {
    apply_enhanced(events, slot, cycles, KeySlot { down: s.down, pressed: false, released: false })
}

/// Whether `events` holds the reserved interrupt.
pub open spec fn has_interrupt(events: Seq<TerminalKeyEvent>) -> bool {
    exists|j: int| #![trigger events[j]] 0 <= j < events.len() && is_interrupt(events[j])
}

/// `n` refreshes of slot `slot` in press-only mode with no events queued.
pub open spec fn idle_refreshes(s: KeySlot, slot: int, cycles: usize, n: nat) -> KeySlot
    decreases n,
{
    if n == 0 {
        s
    } else {
        fallback_refresh(idle_refreshes(s, slot, cycles, (n - 1) as nat), Seq::empty(), slot, cycles)
    }
}

proof fn lemma_idle_countdown(s: KeySlot, slot: int, cycles: usize, n: nat)
    requires
        cycles >= 1,
        s == (KeySlot { down: Some(cycles), pressed: true, released: false }),
        n <= cycles,
    ensures
        idle_refreshes(s, slot, cycles, n) == (KeySlot {
            down: if n < cycles {
                Some((cycles - n) as usize)
            } else {
                None
            },
            pressed: n == 0,
            released: n == cycles,
        }),
    decreases n,
{
    if n > 0 {
        lemma_idle_countdown(s, slot, cycles, (n - 1) as nat);
        let prev = idle_refreshes(s, slot, cycles, (n - 1) as nat);
        let stepped = countdown_step(prev.down);
        assert(apply_presses(
            Seq::<TerminalKeyEvent>::empty(),
            slot,
            cycles,
            KeySlot { down: stepped, pressed: false, released: prev.down is Some && stepped is None },
        ) == KeySlot { down: stepped, pressed: false, released: prev.down is Some && stepped is None });
    }
}

/// In press-only mode, with keys held for `cycles` >= 1 refreshes: a key
/// that is up, refreshed once with a single press of it queued and then
/// `cycles` more times with nothing queued, counts as pressed after the
/// first refresh only, as held after each of the first `cycles` refreshes,
/// and as released after the last one only.
pub proof fn lemma_press_then_release(e: TerminalKeyEvent, s: KeySlot, cycles: usize)
    requires
        cycles >= 1,
        e.kind == KeyEventKind::Press,
        !is_interrupt(e),
        event_slot(e) >= 0,
        s.down is None,
    ensures
        forall|n: nat|
            n <= cycles ==> {
                let st = #[trigger] idle_refreshes(
                    fallback_refresh(s, seq![e], event_slot(e), cycles),
                    event_slot(e),
                    cycles,
                    n,
                );
                &&& st.pressed == (n == 0)
                &&& st.down is Some == (n < cycles)
                &&& st.released == (n == cycles)
            },
{
    let slot = event_slot(e);
    let start = KeySlot { down: None, pressed: false, released: false };
    assert(seq![e].drop_last() =~= Seq::<TerminalKeyEvent>::empty());
    assert(apply_presses(Seq::<TerminalKeyEvent>::empty(), slot, cycles, start) == start);
    let first = fallback_refresh(s, seq![e], slot, cycles);
    assert(first == (KeySlot { down: Some(cycles), pressed: true, released: false }));
    assert forall|n: nat| n <= cycles implies {
        let st = #[trigger] idle_refreshes(first, slot, cycles, n);
        &&& st.pressed == (n == 0)
        &&& st.down is Some == (n < cycles)
        &&& st.released == (n == cycles)
    } by {
        lemma_idle_countdown(first, slot, cycles, n);
    }
}

/// Keyboard state fed by terminal key events.
pub struct CrosstermInputState {
    event_queue: Vec<TerminalKeyEvent>,
    keys_down: Vec<Option<usize>>,
    keys_pressed_this_update: Vec<bool>,
    keys_released_this_update: Vec<bool>,
    event_cycles_before_released: usize,
    enhanced_keyboard: bool,
}

impl CrosstermInputState {
    /// The tables hold one entry per key.
    pub closed spec fn wf(&self) -> bool {
        &&& self.keys_down@.len() == KEY_COUNT
        &&& self.keys_pressed_this_update@.len() == KEY_COUNT
        &&& self.keys_released_this_update@.len() == KEY_COUNT
    }

    /// The state of the key in table slot `i`.
    pub closed spec fn slot(&self, i: int) -> KeySlot {
        KeySlot {
            down: self.keys_down@[i],
            pressed: self.keys_pressed_this_update@[i],
            released: self.keys_released_this_update@[i],
        }
    }

    /// The events queued for the next refresh.
    pub closed spec fn queue(&self) -> Seq<TerminalKeyEvent> {
        self.event_queue@
    }

    /// How many refreshes a key stays held after a press in press-only mode.
    pub closed spec fn cycles(&self) -> usize {
        self.event_cycles_before_released
    }

    /// Whether the terminal reports releases as events of their own.
    pub closed spec fn enhanced(&self) -> bool {
        self.enhanced_keyboard
    }

    /// A state with no key held, nothing queued, press-only mode, and keys
    /// released two refreshes after their last press.
    pub fn new() -> (r: Self)
        ensures
            r.wf(),
            r.queue().len() == 0,
            r.cycles() == 2,
            !r.enhanced(),
            forall|i: int|
                0 <= i < KEY_COUNT ==> #[trigger] r.slot(i) == (KeySlot {
                    down: None,
                    pressed: false,
                    released: false,
                }),
    {
        let mut keys_down: Vec<Option<usize>> = Vec::new();
        let mut pressed: Vec<bool> = Vec::new();
        let mut released: Vec<bool> = Vec::new();
        let mut i: usize = 0;
        while i < KEY_COUNT
            invariant
                i <= KEY_COUNT,
                keys_down@.len() == i,
                pressed@.len() == i,
                released@.len() == i,
                forall|j: int|
                    0 <= j < i ==> #[trigger] keys_down@[j] is None && !pressed@[j] && !released@[j],
            decreases KEY_COUNT - i,
        {
            keys_down.push(None);
            pressed.push(false);
            released.push(false);
            i = i + 1;
        }
        CrosstermInputState {
            event_queue: Vec::new(),
            keys_down,
            keys_pressed_this_update: pressed,
            keys_released_this_update: released,
            event_cycles_before_released: 2,
            enhanced_keyboard: false,
        }
    }

    /// Sets how many refreshes a key stays held after its last press when
    /// the terminal does not report releases.
    pub fn with_event_cycles_before_released(self, cycles: usize) -> (r: Self)
        ensures
            r.wf() == self.wf(),
            r.queue() == self.queue(),
            r.cycles() == cycles,
            r.enhanced() == self.enhanced(),
            forall|i: int| #[trigger] r.slot(i) == self.slot(i),
    {
        CrosstermInputState { event_cycles_before_released: cycles, ..self }
    }

    /// Whether enhanced keyboard reporting is in use.
    pub fn enhanced_keyboard(&self) -> (r: bool)
        ensures
            r == self.enhanced(),
    {
        self.enhanced_keyboard
    }

    /// Queues a key event for the next refresh.
    pub fn handle_new_event(&mut self, event: TerminalKeyEvent)
        ensures
            final(self).wf() == old(self).wf(),
            final(self).queue() == old(self).queue().push(event),
            final(self).queue()[old(self).queue().len() as int] == event,
            final(self).cycles() == old(self).cycles(),
            final(self).enhanced() == old(self).enhanced(),
            forall|i: int| #[trigger] final(self).slot(i) == old(self).slot(i),
    {
        self.event_queue.push(event);
    }

    fn take_all_queued_events(&mut self) -> (r: Vec<TerminalKeyEvent>)
        ensures
            r@ == old(self).event_queue@,
            final(self).event_queue@.len() == 0,
            final(self).keys_down == old(self).keys_down,
            final(self).keys_pressed_this_update == old(self).keys_pressed_this_update,
            final(self).keys_released_this_update == old(self).keys_released_this_update,
            final(self).event_cycles_before_released == old(self).event_cycles_before_released,
            final(self).enhanced_keyboard == old(self).enhanced_keyboard,
    {
        let mut events: Vec<TerminalKeyEvent> = Vec::new();
        std::mem::swap(&mut events, &mut self.event_queue);
        events
    }

    /// Steps every held key's countdown; clears this update's pressed and
    /// released marks, and marks released the keys whose countdown ran out.
    fn decrement_key_ref_counts(&mut self)
        requires
            old(self).wf(),
        ensures
            final(self).wf(),
            final(self).event_queue == old(self).event_queue,
            final(self).event_cycles_before_released == old(self).event_cycles_before_released,
            final(self).enhanced_keyboard == old(self).enhanced_keyboard,
            forall|i: int|
                0 <= i < KEY_COUNT ==> #[trigger] final(self).slot(i) == (KeySlot {
                    down: countdown_step(old(self).slot(i).down),
                    pressed: false,
                    released: old(self).slot(i).down is Some && countdown_step(
                        old(self).slot(i).down,
                    ) is None,
                }),
    {
        let mut i: usize = 0;
        while i < KEY_COUNT
            invariant
                self.wf(),
                i <= KEY_COUNT,
                self.event_queue == old(self).event_queue,
                self.event_cycles_before_released == old(self).event_cycles_before_released,
                self.enhanced_keyboard == old(self).enhanced_keyboard,
                forall|j: int|
                    0 <= j < KEY_COUNT ==> #[trigger] self.slot(j) == if j < i {
                        KeySlot {
                            down: countdown_step(old(self).slot(j).down),
                            pressed: false,
                            released: old(self).slot(j).down is Some && countdown_step(
                                old(self).slot(j).down,
                            ) is None,
                        }
                    } else {
                        old(self).slot(j)
                    },
            decreases KEY_COUNT - i,
        {
            let ghost prev = *self;
            let (next, removed) = match self.keys_down[i] {
                None => (None, false),
                Some(n) => if n <= 1 {
                    (None, true)
                } else {
                    (Some(n - 1), false)
                },
            };
            self.keys_down.set(i, next);
            self.keys_pressed_this_update.set(i, false);
            self.keys_released_this_update.set(i, removed);
            proof {
                assert forall|j: int| 0 <= j < KEY_COUNT implies #[trigger] self.slot(j) == if j < i + 1 {
                    KeySlot {
                        down: countdown_step(old(self).slot(j).down),
                        pressed: false,
                        released: old(self).slot(j).down is Some && countdown_step(
                            old(self).slot(j).down,
                        ) is None,
                    }
                } else {
                    old(self).slot(j)
                } by {
                    assert(prev.slot(j) == if j < i {
                        KeySlot {
                            down: countdown_step(old(self).slot(j).down),
                            pressed: false,
                            released: old(self).slot(j).down is Some && countdown_step(
                                old(self).slot(j).down,
                            ) is None,
                        }
                    } else {
                        old(self).slot(j)
                    });
                }
            }
            i = i + 1;
        }
    }

    /// Marks a press of the key in slot `s`: it counts as pressed if it was
    /// up, and its countdown restarts.
    fn press_slot(&mut self, s: usize)
        requires
            old(self).wf(),
            s < KEY_COUNT,
        ensures
            final(self).wf(),
            final(self).event_queue == old(self).event_queue,
            final(self).event_cycles_before_released == old(self).event_cycles_before_released,
            final(self).enhanced_keyboard == old(self).enhanced_keyboard,
            forall|j: int|
                0 <= j < KEY_COUNT ==> #[trigger] final(self).slot(j) == if j == s {
                    KeySlot {
                        down: Some(old(self).event_cycles_before_released),
                        pressed: old(self).slot(j).pressed || old(self).slot(j).down is None,
                        ..old(self).slot(j)
                    }
                } else {
                    old(self).slot(j)
                },
    {
        if self.keys_down[s].is_none() {
            self.keys_pressed_this_update.set(s, true);
        }
        self.keys_down.set(s, Some(self.event_cycles_before_released));
    }

    /// Marks a release of the key in slot `s`: it counts as released if it
    /// was held, and it is up.
    fn release_slot(&mut self, s: usize)
        requires
            old(self).wf(),
            s < KEY_COUNT,
        ensures
            final(self).wf(),
            final(self).event_queue == old(self).event_queue,
            final(self).event_cycles_before_released == old(self).event_cycles_before_released,
            final(self).enhanced_keyboard == old(self).enhanced_keyboard,
            forall|j: int|
                0 <= j < KEY_COUNT ==> #[trigger] final(self).slot(j) == if j == s {
                    KeySlot {
                        down: None,
                        released: old(self).slot(j).released || old(self).slot(j).down is Some,
                        ..old(self).slot(j)
                    }
                } else {
                    old(self).slot(j)
                },
    {
        if self.keys_down[s].is_some() {
            self.keys_released_this_update.set(s, true);
        }
        self.keys_down.set(s, None);
    }

    fn next_loop_fallback(&mut self, next_events: Vec<TerminalKeyEvent>)
        requires
            old(self).wf(),
        ensures
            final(self).wf(),
            final(self).event_queue == old(self).event_queue,
            final(self).event_cycles_before_released == old(self).event_cycles_before_released,
            final(self).enhanced_keyboard == old(self).enhanced_keyboard,
            forall|i: int|
                0 <= i < KEY_COUNT ==> #[trigger] final(self).slot(i) == fallback_refresh(
                    old(self).slot(i),
                    next_events@,
                    i,
                    old(self).event_cycles_before_released,
                ),
    {
        let ghost start = *self;
        self.decrement_key_ref_counts();
        let ghost stepped = *self;
        let cycles = self.event_cycles_before_released;
        let mut j: usize = 0;
        while j < next_events.len()
            invariant
                self.wf(),
                j <= next_events@.len(),
                self.event_queue == start.event_queue,
                self.event_cycles_before_released == cycles,
                cycles == start.event_cycles_before_released,
                self.enhanced_keyboard == start.enhanced_keyboard,
                forall|i: int|
                    0 <= i < KEY_COUNT ==> #[trigger] self.slot(i) == presses_upto(
                        next_events@,
                        j as nat,
                        i,
                        cycles,
                        stepped.slot(i),
                    ),
                forall|i: int|
                    0 <= i < KEY_COUNT ==> #[trigger] stepped.slot(i) == (KeySlot {
                        down: countdown_step(start.slot(i).down),
                        pressed: false,
                        released: start.slot(i).down is Some && countdown_step(
                            start.slot(i).down,
                        ) is None,
                    }),
            decreases next_events@.len() - j,
        {
            let e = next_events[j];
            let ghost prev = *self;
            if e.kind == KeyEventKind::Press {
                if let Some(key) = map_terminal_keycode(&e.code) {
                    let s = key_slot(key);
                    self.press_slot(s);
                }
            }
            proof {
                assert forall|i: int| 0 <= i < KEY_COUNT implies #[trigger] self.slot(i) == presses_upto(
                    next_events@,
                    (j + 1) as nat,
                    i,
                    cycles,
                    stepped.slot(i),
                ) by {
                    assert(prev.slot(i) == presses_upto(
                        next_events@,
                        j as nat,
                        i,
                        cycles,
                        stepped.slot(i),
                    ));
                }
            }
            j = j + 1;
        }
        let mut i: usize = 0;
        while i < KEY_COUNT
            invariant
                self.wf(),
                i <= KEY_COUNT,
                self.event_queue == start.event_queue,
                self.event_cycles_before_released == cycles,
                self.enhanced_keyboard == start.enhanced_keyboard,
                forall|k: int|
                    0 <= k < KEY_COUNT ==> {
                        let a = apply_presses(next_events@, k, cycles, stepped.slot(k));
                        #[trigger] self.slot(k) == if k < i {
                            KeySlot { released: a.released && a.down is None, ..a }
                        } else {
                            a
                        }
                    },
                forall|k: int|
                    0 <= k < KEY_COUNT ==> #[trigger] stepped.slot(k) == (KeySlot {
                        down: countdown_step(start.slot(k).down),
                        pressed: false,
                        released: start.slot(k).down is Some && countdown_step(
                            start.slot(k).down,
                        ) is None,
                    }),
            decreases KEY_COUNT - i,
        {
            let ghost prev = *self;
            let held = self.keys_down[i].is_some();
            let was = self.keys_released_this_update[i];
            self.keys_released_this_update.set(i, was && !held);
            proof {
                assert forall|k: int| 0 <= k < KEY_COUNT implies {
                    let a = apply_presses(next_events@, k, cycles, stepped.slot(k));
                    #[trigger] self.slot(k) == if k < i + 1 {
                        KeySlot { released: a.released && a.down is None, ..a }
                    } else {
                        a
                    }
                } by {
                    let a = apply_presses(next_events@, k, cycles, stepped.slot(k));
                    assert(prev.slot(k) == if k < i {
                        KeySlot { released: a.released && a.down is None, ..a }
                    } else {
                        a
                    });
                }
            }
            i = i + 1;
        }
        proof {
            assert forall|k: int| 0 <= k < KEY_COUNT implies #[trigger] self.slot(k) == fallback_refresh(
                start.slot(k),
                next_events@,
                k,
                cycles,
            ) by {
                assert(stepped.slot(k) == (KeySlot {
                    down: countdown_step(start.slot(k).down),
                    pressed: false,
                    released: start.slot(k).down is Some && countdown_step(start.slot(k).down) is None,
                }));
            }
        }
    }

    fn next_loop_enhanced(&mut self, next_events: Vec<TerminalKeyEvent>)
        requires
            old(self).wf(),
        ensures
            final(self).wf(),
            final(self).event_queue == old(self).event_queue,
            final(self).event_cycles_before_released == old(self).event_cycles_before_released,
            final(self).enhanced_keyboard == old(self).enhanced_keyboard,
            forall|i: int|
                0 <= i < KEY_COUNT ==> #[trigger] final(self).slot(i) == enhanced_refresh(
                    old(self).slot(i),
                    next_events@,
                    i,
                    old(self).event_cycles_before_released,
                ),
    {
        let ghost start = *self;
        let mut i: usize = 0;
        while i < KEY_COUNT
            invariant
                self.wf(),
                i <= KEY_COUNT,
                self.event_queue == start.event_queue,
                self.event_cycles_before_released == start.event_cycles_before_released,
                self.enhanced_keyboard == start.enhanced_keyboard,
                forall|k: int|
                    0 <= k < KEY_COUNT ==> #[trigger] self.slot(k) == if k < i {
                        KeySlot { down: start.slot(k).down, pressed: false, released: false }
                    } else {
                        start.slot(k)
                    },
            decreases KEY_COUNT - i,
        {
            let ghost prev = *self;
            self.keys_pressed_this_update.set(i, false);
            self.keys_released_this_update.set(i, false);
            proof {
                assert forall|k: int| 0 <= k < KEY_COUNT implies #[trigger] self.slot(k) == if k < i + 1 {
                    KeySlot { down: start.slot(k).down, pressed: false, released: false }
                } else {
                    start.slot(k)
                } by {
                    assert(prev.slot(k) == if k < i {
                        KeySlot { down: start.slot(k).down, pressed: false, released: false }
                    } else {
                        start.slot(k)
                    });
                }
            }
            i = i + 1;
        }
        let cycles = self.event_cycles_before_released;
        let mut j: usize = 0;
        while j < next_events.len()
            invariant
                self.wf(),
                j <= next_events@.len(),
                self.event_queue == start.event_queue,
                self.event_cycles_before_released == cycles,
                cycles == start.event_cycles_before_released,
                self.enhanced_keyboard == start.enhanced_keyboard,
                forall|k: int|
                    0 <= k < KEY_COUNT ==> #[trigger] self.slot(k) == enhanced_upto(
                        next_events@,
                        j as nat,
                        k,
                        cycles,
                        KeySlot { down: start.slot(k).down, pressed: false, released: false },
                    ),
            decreases next_events@.len() - j,
        {
            let e = next_events[j];
            let ghost prev = *self;
            if let Some(key) = map_terminal_keycode(&e.code) {
                let s = key_slot(key);
                match e.kind {
                    KeyEventKind::Press => self.press_slot(s),
                    KeyEventKind::Release => self.release_slot(s),
                    KeyEventKind::Repeat => {},
                }
            }
            proof {
                assert forall|k: int| 0 <= k < KEY_COUNT implies #[trigger] self.slot(k) == enhanced_upto(
                    next_events@,
                    (j + 1) as nat,
                    k,
                    cycles,
                    KeySlot { down: start.slot(k).down, pressed: false, released: false },
                ) by {
                    assert(prev.slot(k) == enhanced_upto(
                        next_events@,
                        j as nat,
                        k,
                        cycles,
                        KeySlot { down: start.slot(k).down, pressed: false, released: false },
                    ));
                }
            }
            j = j + 1;
        }
    }

    /// Refreshes the keyboard state from the queued events, which it consumes.
    /// A queued interrupt (control + 'c') stops the refresh and asks to exit
    /// with code 130; otherwise every key's state is refreshed in the mode
    /// in use.
    pub fn refresh(&mut self) -> (r: NextLoopState)
        requires
            old(self).wf(),
        ensures
            final(self).wf(),
            final(self).queue().len() == 0,
            final(self).cycles() == old(self).cycles(),
            final(self).enhanced() == old(self).enhanced(),
            has_interrupt(old(self).queue()) ==> r == NextLoopState::Exit(INTERRUPT_EXIT_CODE)
                && forall|i: int| #[trigger] final(self).slot(i) == old(self).slot(i),
            !has_interrupt(old(self).queue()) ==> r == NextLoopState::Continue && forall|i: int|
                0 <= i < KEY_COUNT ==> #[trigger] final(self).slot(i) == if old(self).enhanced() {
                    enhanced_refresh(old(self).slot(i), old(self).queue(), i, old(self).cycles())
                } else {
                    fallback_refresh(old(self).slot(i), old(self).queue(), i, old(self).cycles())
                },
    {
        let next_events = self.take_all_queued_events();
        let mut j: usize = 0;
        while j < next_events.len()
            invariant
                j <= next_events@.len(),
                next_events@ == old(self).event_queue@,
                self.wf(),
                self.event_queue@.len() == 0,
                self.keys_down == old(self).keys_down,
                self.keys_pressed_this_update == old(self).keys_pressed_this_update,
                self.keys_released_this_update == old(self).keys_released_this_update,
                self.event_cycles_before_released == old(self).event_cycles_before_released,
                self.enhanced_keyboard == old(self).enhanced_keyboard,
                forall|k: int| 0 <= k < j ==> !#[trigger] is_interrupt(next_events@[k]),
            decreases next_events@.len() - j,
        {
            let e = next_events[j];
            if e.kind == KeyEventKind::Press && (e.code == TerminalKeyCode::Char('c')
                || e.code == TerminalKeyCode::Char('C')) && e.modifiers == MODIFIER_CONTROL {
                assert(is_interrupt(next_events@[j as int]));
                return NextLoopState::Exit(INTERRUPT_EXIT_CODE);
            }
            j = j + 1;
        }
        if self.enhanced_keyboard {
            self.next_loop_enhanced(next_events);
        } else {
            self.next_loop_fallback(next_events);
        }
        NextLoopState::Continue
    }
}

impl KeyboardState for CrosstermInputState {
    closed spec fn key_pressed(&self, key: KeyboardKey) -> bool {
        key_index(key) < self.keys_pressed_this_update@.len()
            && self.keys_pressed_this_update@[key_index(key)]
    }

    closed spec fn key_down(&self, key: KeyboardKey) -> bool {
        key_index(key) < self.keys_down@.len() && self.keys_down@[key_index(key)] is Some
    }

    closed spec fn key_released(&self, key: KeyboardKey) -> bool {
        key_index(key) < self.keys_released_this_update@.len()
            && self.keys_released_this_update@[key_index(key)]
    }

    fn is_key_pressed(&self, key: KeyboardKey) -> (r: bool)
        ensures
            self.wf() ==> r == self.slot(key_index(key)).pressed,
    {
        let s = key_slot(key);
        if s < self.keys_pressed_this_update.len() {
            self.keys_pressed_this_update[s]
        } else {
            false
        }
    }

    fn is_key_down(&self, key: KeyboardKey) -> (r: bool)
        ensures
            self.wf() ==> r == self.slot(key_index(key)).down is Some,
    {
        let s = key_slot(key);
        if s < self.keys_down.len() {
            self.keys_down[s].is_some()
        } else {
            false
        }
    }

    fn is_key_released(&self, key: KeyboardKey) -> (r: bool)
        ensures
            self.wf() ==> r == self.slot(key_index(key)).released,
    {
        let s = key_slot(key);
        if s < self.keys_released_this_update.len() {
            self.keys_released_this_update[s]
        } else {
            false
        }
    }

    fn is_key_up(&self, key: KeyboardKey) -> (r: bool)
        ensures
            self.wf() ==> r == !(self.slot(key_index(key)).down is Some),
    {
        !self.is_key_down(key)
    }
}

impl InputState for CrosstermInputState {
    open spec fn ready(&self) -> bool {
        self.wf()
    }

    /// Selects enhanced mode when the terminal reports releases.
    fn begin(&mut self, distinct_release_events: bool)
        ensures
            final(self).enhanced() == distinct_release_events,
            final(self).queue() == old(self).queue(),
            final(self).cycles() == old(self).cycles(),
            forall|i: int| #[trigger] final(self).slot(i) == old(self).slot(i),
    {
        self.enhanced_keyboard = distinct_release_events;
    }

    /// Refreshes the keyboard state from the queued events; see `refresh`.
    fn next_loop(&mut self) -> (r: NextLoopState)
        ensures
            final(self).queue().len() == 0,
            final(self).cycles() == old(self).cycles(),
            final(self).enhanced() == old(self).enhanced(),
            has_interrupt(old(self).queue()) ==> r == NextLoopState::Exit(INTERRUPT_EXIT_CODE)
                && forall|i: int| #[trigger] final(self).slot(i) == old(self).slot(i),
            !has_interrupt(old(self).queue()) ==> r == NextLoopState::Continue && forall|i: int|
                0 <= i < KEY_COUNT ==> #[trigger] final(self).slot(i) == if old(self).enhanced() {
                    enhanced_refresh(old(self).slot(i), old(self).queue(), i, old(self).cycles())
                } else {
                    fallback_refresh(old(self).slot(i), old(self).queue(), i, old(self).cycles())
                },
    {
        self.refresh()
    }

    /// Leaves enhanced mode.
    fn finish(&mut self)
        ensures
            !final(self).enhanced(),
            final(self).queue() == old(self).queue(),
            final(self).cycles() == old(self).cycles(),
            forall|i: int| #[trigger] final(self).slot(i) == old(self).slot(i),
    {
        self.enhanced_keyboard = false;
    }
}

impl Default for CrosstermInputState {
    fn default() -> (r: Self)
        ensures
            r.wf(),
            r.queue().len() == 0,
            r.cycles() == 2,
            !r.enhanced(),
            forall|i: int|
                0 <= i < KEY_COUNT ==> #[trigger] r.slot(i) == (KeySlot {
                    down: None,
                    pressed: false,
                    released: false,
                }),
    {
        Self::new()
    }
}

} // verus!
