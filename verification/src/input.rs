//! Input state: raw events, the per-step button/axis tables, and the
//! bookkeeping that turns a queue of events into the current input state.

use vstd::prelude::*;
use crate::statemap::{StateTable, spec_zero_axes};

verus! {

/// An input code: a key, mouse button, or axis identifier.
pub type Input = u64;

/// Code under which horizontal mouse motion is recorded.
pub const MOUSE_AXIS_X: Input = 0xFE;

/// Code under which vertical mouse motion is recorded.
pub const MOUSE_AXIS_Y: Input = 0xFF;

/// Largest magnitude an axis reading may have.
pub const AXIS_LIMIT: i64 = 0x1_0000_0000;

/// True for the codes that carry axis readings rather than button states.
pub open spec fn is_axis_code(k: Input) -> bool {
    k == MOUSE_AXIS_X || k == MOUSE_AXIS_Y
}

/// The recorded state of one input code.
#[derive(Clone, Copy, PartialEq, Eq, Structural, Debug)]
pub enum InputState {
    Button(bool),
    Axis1D(i64),
}

impl InputState {
    /// The button reading. Only button states may be asked for it.
    pub fn button(self) -> (r: bool)
        requires
            self matches InputState::Button(_),
        ensures
            self matches InputState::Button(b) && r == b,
    {
        match self {
            InputState::Button(b) => b,
            InputState::Axis1D(_) => false,  // excluded by the precondition
        }
    }

    /// The axis reading. Only axis states may be asked for it.
    pub fn axis1d(self) -> (r: i64)
        requires
            self matches InputState::Axis1D(_),
        ensures
            self matches InputState::Axis1D(x) && r == x,
    {
        match self {
            InputState::Axis1D(x) => x,
            InputState::Button(_) => 0,  // excluded by the precondition
        }
    }
}

/// A raw event delivered by the host platform layer.
#[derive(Clone, Copy, PartialEq, Eq, Structural, Debug)]
pub enum Event {
    Key { key: Input, pressed: bool },
    MouseButton { mouse_button: Input, pressed: bool },
    MouseMotion(i64, i64),
    FocusLost,
    FocusGained,
    Char(char),
    Resized(u32, u32),
}

/// Button events must not reuse the axis codes, and axis readings stay
/// inside [`AXIS_LIMIT`].
pub open spec fn wf_event(e: Event) -> bool {
    match e {
        Event::Key { key, pressed } => !is_axis_code(key),
        Event::MouseButton { mouse_button, pressed } => !is_axis_code(mouse_button),
        Event::MouseMotion(x, y) => -AXIS_LIMIT <= x <= AXIS_LIMIT && -AXIS_LIMIT <= y
            <= AXIS_LIMIT,
        _ => true,
    }
}

/// The queue of not-yet-processed events, filled by the host between steps
/// and drained by the input system once per step.
pub struct GameInput {
    event_queue: Vec<Event>,
}

impl GameInput {
    pub closed spec fn view(&self) -> Seq<Event> {
        self.event_queue@
    }

    pub closed spec fn wf(&self) -> bool {
        forall|i: int| 0 <= i < self.event_queue@.len() ==> wf_event(#[trigger] self.event_queue@[i])
    }

    pub fn new() -> (r: GameInput)
        ensures
            r.wf(),
            r@ == Seq::<Event>::empty(),
    {
        GameInput { event_queue: Vec::new() }
    }

    /// Appends one event to the queue.
    pub fn push(&mut self, e: Event)
        requires
            old(self).wf(),
            wf_event(e),
        ensures
            final(self).wf(),
            final(self)@ == old(self)@.push(e),
    {
        self.event_queue.push(e);
    }

    /// Hands the queued events over and leaves the queue empty.
    pub fn take(&mut self) -> (r: Vec<Event>)
        requires
            old(self).wf(),
        ensures
            final(self).wf(),
            final(self)@ == Seq::<Event>::empty(),
            r@ == old(self)@,
            forall|i: int| 0 <= i < r@.len() ==> wf_event(#[trigger] r@[i]),
    {
        let mut out: Vec<Event> = Vec::new();
        core::mem::swap(&mut out, &mut self.event_queue);
        out
    }
}

/// Ghost snapshot of an input manager: both tables and the focus flags.
pub struct InputSnap {
    pub current: Map<u64, InputState>,
    pub last: Map<u64, InputState>,
    pub focus: bool,
    pub last_focus: bool,
}

/// The snapshot of a freshly constructed input manager.
pub open spec fn default_snap() -> InputSnap {
    InputSnap {
        current: Map::<u64, InputState>::empty(),
        last: Map::<u64, InputState>::empty(),
        focus: true,
        last_focus: true,
    }
}

/// The button reading a table gives for a code: `false` when nothing is
/// recorded.
pub open spec fn button_of(m: Map<u64, InputState>, k: u64) -> bool {
    if m.contains_key(k) {
        match m[k] {
            InputState::Button(b) => b,
            InputState::Axis1D(_) => false,
        }
    } else {
        false
    }
}

/// The axis reading a table gives for a code: `0` when nothing is recorded.
pub open spec fn axis_of(m: Map<u64, InputState>, k: u64) -> int {
    if m.contains_key(k) {
        match m[k] {
            InputState::Axis1D(x) => x as int,
            InputState::Button(_) => 0,
        }
    } else {
        0
    }
}

/// Axis codes map to bounded axis readings and button codes to button
/// states.
pub open spec fn axis_coherent(m: Map<u64, InputState>) -> bool {
    forall|k: u64| #[trigger]
        m.contains_key(k) ==> (if is_axis_code(k) {
            m[k] matches InputState::Axis1D(x) && -AXIS_LIMIT <= x <= AXIS_LIMIT
        } else {
            m[k] matches InputState::Button(_)
        })
}

/// Start of a step: the current table becomes the last one, its axis
/// readings return to zero, and the focus flag is remembered.
pub open spec fn step_prepared(s: InputSnap) -> InputSnap {
    InputSnap {
        current: spec_zero_axes(s.current),
        last: s.current,
        focus: s.focus,
        last_focus: s.focus,
    }
}

/// The effect of a single event on the snapshot.
pub open spec fn apply_event(s: InputSnap, e: Event) -> InputSnap {
    match e {
        Event::Key { key, pressed } => InputSnap {
            current: s.current.insert(key, InputState::Button(pressed)),
            ..s
        },
        Event::MouseButton { mouse_button, pressed } => InputSnap {
            current: s.current.insert(mouse_button, InputState::Button(pressed)),
            ..s
        },
        Event::MouseMotion(x, y) => {
            let cx = if x != 0 {
                s.current.insert(MOUSE_AXIS_X, InputState::Axis1D(x))
            } else {
                s.current
            };
            let cy = if y != 0 {
                cx.insert(MOUSE_AXIS_Y, InputState::Axis1D(y))
            } else {
                cx
            };
            InputSnap { current: cy, ..s }
        },
        Event::FocusLost => InputSnap { focus: false, ..s },
        Event::FocusGained => InputSnap { focus: true, ..s },
        _ => s,
    }
}

/// The effect of a whole event sequence, first event first.
pub open spec fn apply_events(s: InputSnap, evs: Seq<Event>) -> InputSnap
    decreases evs.len(),
{
    if evs.len() == 0 {
        s
    } else {
        apply_events(apply_event(s, evs[0]), evs.drop_first())
    }
}

/// Per-step input state: what is pressed now, what was pressed during the
/// previous step, and whether the host window has focus.
pub struct InputManager {
    current: StateTable,
    last: StateTable,
    last_focus: bool,
    focus: bool,
}

impl InputManager {
    pub closed spec fn view(&self) -> InputSnap {
        InputSnap {
            current: self.current@,
            last: self.last@,
            focus: self.focus,
            last_focus: self.last_focus,
        }
    }

    pub closed spec fn wf(&self) -> bool {
        self.current.wf() && self.last.wf() && axis_coherent(self.current@) && axis_coherent(
            self.last@,
        )
    }

    /// True when the button is down in the current step.
    pub fn is_button_down(&self, button: Input) -> (r: bool)
        requires
            self.wf(),
            !is_axis_code(button),
        ensures
            r == button_of(self@.current, button),
    {
        match self.current.get(button) {
            Some(input_state) => input_state.button(),
            None => false,
        }
    }

    /// True when the button is down now but was not during the last step.
    pub fn was_button_pressed(&self, button: Input) -> (r: bool)
        requires
            self.wf(),
            !is_axis_code(button),
        ensures
            r == (!button_of(self@.last, button) && button_of(self@.current, button)),
    {
        let down = match self.current.get(button) {
            Some(input_state) => input_state.button(),
            None => false,
        };
        let last = match self.last.get(button) {
            Some(input_state) => input_state.button(),
            None => false,
        };
        !last && down
    }

    /// True when the button was down during the last step but is up now.
    pub fn was_button_released(&self, button: Input) -> (r: bool)
        requires
            self.wf(),
            !is_axis_code(button),
        ensures
            r == (button_of(self@.last, button) && !button_of(self@.current, button)),
    {
        let down = match self.current.get(button) {
            Some(input_state) => input_state.button(),
            None => false,
        };
        let last = match self.last.get(button) {
            Some(input_state) => input_state.button(),
            None => false,
        };
        last && !down
    }

    /// The axis reading of the current step.
    pub fn current_axis1d(&self, axis: Input) -> (r: i64)
        requires
            self.wf(),
            is_axis_code(axis),
        ensures
            r == axis_of(self@.current, axis),
            -AXIS_LIMIT <= r <= AXIS_LIMIT,
    {
        match self.current.get(axis) {
            Some(input_state) => input_state.axis1d(),
            None => 0,
        }
    }

    /// The axis reading of the previous step.
    pub fn last_axis1d(&self, axis: Input) -> (r: i64)
        requires
            self.wf(),
            is_axis_code(axis),
        ensures
            r == axis_of(self@.last, axis),
            -AXIS_LIMIT <= r <= AXIS_LIMIT,
    {
        match self.last.get(axis) {
            Some(input_state) => input_state.axis1d(),
            None => 0,
        }
    }

    /// How far the axis moved since the previous step.
    pub fn delta_axis1d(&self, axis: Input) -> (r: i64)
        requires
            self.wf(),
            is_axis_code(axis),
        ensures
            r == axis_of(self@.current, axis) - axis_of(self@.last, axis),
    {
        self.current_axis1d(axis) - self.last_axis1d(axis)
    }

    pub fn has_focus(&self) -> (r: bool)
        ensures
            r == self@.focus,
    {
        self.focus
    }

    /// True when focus was lost since the previous step.
    pub fn lost_focus(&self) -> (r: bool)
        ensures
            r == (!self@.focus && self@.last_focus),
    {
        !self.focus && self.last_focus
    }

    /// True when focus was gained since the previous step.
    pub fn gained_focus(&self) -> (r: bool)
        ensures
            r == (self@.focus && !self@.last_focus),
    {
        self.focus && !self.last_focus
    }

    /// An independent copy of the whole input state.
    pub fn clone_state(&self) -> (r: InputManager)
        requires
            self.wf(),
        ensures
            r.wf(),
            r@ == self@,
    {
        InputManager {
            current: self.current.duplicate(),
            last: self.last.duplicate(),
            last_focus: self.last_focus,
            focus: self.focus,
        }
    }

    /// One step of input processing: remember the current state as last,
    /// zero the axes, then fold the queued events in, oldest first.
    pub fn apply(&mut self, events: &Vec<Event>)
        requires
            old(self).wf(),
            forall|i: int| 0 <= i < events@.len() ==> wf_event(#[trigger] events@[i]),
        ensures
            final(self).wf(),
            final(self)@ == apply_events(step_prepared(old(self)@), events@),
    {
        self.last = self.current.duplicate();
        self.last_focus = self.focus;
        self.current.zero_axes();
        let ghost target = apply_events(step_prepared(old(self)@), events@);
        assert(self@ == step_prepared(old(self)@));
        assert(events@.skip(0) =~= events@);
        let n: usize = events.len();
        let mut i: usize = 0;
        while i < n
            invariant
                n == events@.len(),
                i <= n,
                self.wf(),
                forall|j: int| 0 <= j < events@.len() ==> wf_event(#[trigger] events@[j]),
                apply_events(self@, events@.skip(i as int)) == target,
            decreases n - i,
        {
            let ghost pre = self@;
            let ghost rest = events@.skip(i as int);
            proof {
                assert(rest.len() > 0);
                assert(rest[0] == events@[i as int]);
                assert(rest.drop_first() =~= events@.skip(i as int + 1));
            }
            let e: Event = events[i];
            match e {
                Event::Key { key, pressed } => {
                    self.current.set(key, InputState::Button(pressed));
                },
                Event::MouseButton { mouse_button, pressed } => {
                    self.current.set(mouse_button, InputState::Button(pressed));
                },
                Event::MouseMotion(x, y) => {
                    if x != 0 {
                        self.current.set(MOUSE_AXIS_X, InputState::Axis1D(x));
                    }
                    if y != 0 {
                        self.current.set(MOUSE_AXIS_Y, InputState::Axis1D(y));
                    }
                },
                Event::FocusLost => {
                    self.focus = false;
                },
                Event::FocusGained => {
                    self.focus = true;
                },
                _ => {},
            }
            proof {
                assert(self@ == apply_event(pre, events@[i as int]));
                assert(apply_events(pre, rest) == apply_events(self@, rest.drop_first()));
            }
            i = i + 1;
        }
        assert(events@.skip(n as int) =~= Seq::<Event>::empty());
    }
}

impl Default for InputManager {
    /// Empty tables; the window is assumed focused from the start.
    fn default() -> (r: InputManager)
        ensures
            r.wf(),
            r@ == default_snap(),
    {
        InputManager {
            current: StateTable::new(),
            last: StateTable::new(),
            last_focus: true,
            focus: true,
        }
    }
}

} // verus!
