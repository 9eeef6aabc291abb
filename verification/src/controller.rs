//! Tracked controller state.
//!
//! [`GamepadState`] is a double-buffered snapshot of every observed control:
//! `current` holds the value carried by the most recent event for a control,
//! `previous` the value observed strictly before it.  Dispatch evaluates its
//! edge policies against both; `previous` is committed only after dispatch for
//! the event has completed, so edge detection sees the pre-event value.

use vstd::prelude::*;

use crate::assoc::{distinct_keys, lemma_map_of_absent, lemma_map_of_present, lemma_map_of_push,
    lemma_map_of_update, map_of};
use crate::fixed::Fx;

verus! {

/// Identifies a physical button (or a pressure-sensitive trigger, which the
/// device reports as a button with an analog value).
#[derive(Clone, Copy, PartialEq, Eq, Structural, Hash, Debug)]
pub struct ButtonId(pub u16);

/// Identifies a physical analog axis.
#[derive(Clone, Copy, PartialEq, Eq, Structural, Hash, Debug)]
pub struct AxisId(pub u16);

/// Identifies a physical control: a button or an axis.
#[derive(Clone, Copy, PartialEq, Eq, Structural, Hash, Debug)]
pub enum ControlId {
    Button(ButtonId),
    Axis(AxisId),
}

/// The observed value of one control.
///
/// `Key` is a digital button; `Trigger` a pressure value in `[0, SCALE]`;
/// `Axis` a stick deflection in `[-SCALE, SCALE]`.
#[derive(Clone, Copy, PartialEq, Eq, Structural, Debug)]
pub enum KeyState {
    Key(bool),
    Trigger(Fx),
    Axis(Fx),
}

/// One of the two snapshot buffers: an association list from controls to
/// their observed values, with pairwise-distinct keys.
struct StateMap {
    entries: Vec<(ControlId, KeyState)>,
}

impl StateMap {
    spec fn as_map(&self) -> Map<ControlId, KeyState> {
        map_of(self.entries@)
    }

    spec fn wf(&self) -> bool {
        distinct_keys(self.entries@)
    }

    fn new() -> (r: StateMap)
        ensures
            r.wf(),
            r.as_map() == Map::<ControlId, KeyState>::empty(),
    {
        StateMap { entries: Vec::new() }
    }

    /// Overwrite the value for `id`, creating the entry on first observation.
    fn set(&mut self, id: ControlId, value: KeyState)
        requires
            old(self).wf(),
        ensures
            final(self).wf(),
            final(self).as_map() == old(self).as_map().insert(id, value),
    {
        let n = self.entries.len();
        let mut i: usize = 0;
        while i < n
            invariant
                n == self.entries.len(),
                i <= n,
                forall|j: int| 0 <= j < i ==> self.entries@[j].0 != id,
                self.wf(),
                self.as_map() == old(self).as_map(),
                self.entries@ == old(self).entries@,
            decreases n - i,
        {
            if self.entries[i].0 == id {
                proof {
                    lemma_map_of_update(self.entries@, i as int, id, value);
                }
                self.entries[i] = (id, value);
                return;
            }
            i += 1;
        }
        proof {
            lemma_map_of_push(self.entries@, id, value);
        }
        self.entries.push((id, value));
    }

    /// The value last stored for `id`, or `None` if the control has never
    /// been observed.
    fn get(&self, id: ControlId) -> (r: Option<KeyState>)
        requires
            self.wf(),
        ensures
            r == self.as_map().get(id),
    {
        let n = self.entries.len();
        let mut i: usize = 0;
        while i < n
            invariant
                n == self.entries.len(),
                i <= n,
                forall|j: int| 0 <= j < i ==> self.entries@[j].0 != id,
                self.wf(),
            decreases n - i,
        {
            let (k, v) = self.entries[i];
            if k == id {
                proof {
                    lemma_map_of_present(self.entries@, i as int);
                }
                return Some(v);
            }
            i += 1;
        }
        proof {
            lemma_map_of_absent(self.entries@, id);
        }
        None
    }
}

/// Double-buffered snapshot of every tracked control's last two observed
/// values.
pub struct GamepadState {
    current: StateMap,
    previous: StateMap,
}

impl GamepadState {
    /// The most recent observed value of each control.
    pub closed spec fn current_map(&self) -> Map<ControlId, KeyState> {
        self.current.as_map()
    }

    /// The value observed strictly before the most recent one, per control.
    pub closed spec fn previous_map(&self) -> Map<ControlId, KeyState> {
        self.previous.as_map()
    }

    /// Both snapshot buffers keep their keys distinct.
    pub closed spec fn wf(&self) -> bool {
        self.current.wf() && self.previous.wf()
    }

    /// An empty store: no control has been observed yet.
    pub fn new() -> (r: GamepadState)
        ensures
            r.wf(),
            r.current_map() == Map::<ControlId, KeyState>::empty(),
            r.previous_map() == Map::<ControlId, KeyState>::empty(),
    {
        GamepadState { current: StateMap::new(), previous: StateMap::new() }
    }

    /// Unconditionally overwrite the current value of a control.
    pub fn update(&mut self, id: ControlId, value: KeyState)
        requires
            old(self).wf(),
        ensures
            final(self).wf(),
            final(self).current_map() == old(self).current_map().insert(id, value),
            final(self).previous_map() == old(self).previous_map(),
    {
        self.current.set(id, value);
    }

    /// Overwrite the previous value of a control; called only after all
    /// dispatch evaluation for that control on the current tick is complete.
    pub fn commit(&mut self, id: ControlId, value: KeyState)
        requires
            old(self).wf(),
        ensures
            final(self).wf(),
            final(self).previous_map() == old(self).previous_map().insert(id, value),
            final(self).current_map() == old(self).current_map(),
    {
        self.previous.set(id, value);
    }

    /// The current value of a control, or `None` if never observed.
    pub fn get_current(&self, id: ControlId) -> (r: Option<KeyState>)
        requires
            self.wf(),
        ensures
            r == self.current_map().get(id),
    {
        self.current.get(id)
    }

    /// The previous value of a control, or `None` if never observed.
    pub fn get_previous(&self, id: ControlId) -> (r: Option<KeyState>)
        requires
            self.wf(),
        ensures
            r == self.previous_map().get(id),
    {
        self.previous.get(id)
    }

    /// Overwrite the current value of a button.
    pub fn update_button(&mut self, key: ButtonId, state: KeyState)
        requires
            old(self).wf(),
        ensures
            final(self).wf(),
            final(self).current_map()
                == old(self).current_map().insert(ControlId::Button(key), state),
            final(self).previous_map() == old(self).previous_map(),
    {
        self.update(ControlId::Button(key), state);
    }

    /// Overwrite the previous value of a button.
    pub fn update_last_button(&mut self, key: ButtonId, state: KeyState)
        requires
            old(self).wf(),
        ensures
            final(self).wf(),
            final(self).previous_map()
                == old(self).previous_map().insert(ControlId::Button(key), state),
            final(self).current_map() == old(self).current_map(),
    {
        self.commit(ControlId::Button(key), state);
    }

    /// Overwrite the current value of an axis.
    pub fn update_axis(&mut self, axis: AxisId, state: KeyState)
        requires
            old(self).wf(),
        ensures
            final(self).wf(),
            final(self).current_map()
                == old(self).current_map().insert(ControlId::Axis(axis), state),
            final(self).previous_map() == old(self).previous_map(),
    {
        self.update(ControlId::Axis(axis), state);
    }

    /// Overwrite the previous value of an axis.
    pub fn update_last_axis(&mut self, axis: AxisId, state: KeyState)
        requires
            old(self).wf(),
        ensures
            final(self).wf(),
            final(self).previous_map()
                == old(self).previous_map().insert(ControlId::Axis(axis), state),
            final(self).current_map() == old(self).current_map(),
    {
        self.commit(ControlId::Axis(axis), state);
    }

    /// The current value of a button, or `None` if never observed.
    pub fn get_button_state(&self, button: ButtonId) -> (r: Option<KeyState>)
        requires
            self.wf(),
        ensures
            r == self.current_map().get(ControlId::Button(button)),
    {
        self.get_current(ControlId::Button(button))
    }

    /// The previous value of a button, or `None` if never observed.
    pub fn get_last_button_state(&self, button: ButtonId) -> (r: Option<KeyState>)
        requires
            self.wf(),
        ensures
            r == self.previous_map().get(ControlId::Button(button)),
    {
        self.get_previous(ControlId::Button(button))
    }

    /// The current value of an axis, or `None` if never observed.
    pub fn get_axis_state(&self, axis: AxisId) -> (r: Option<KeyState>)
        requires
            self.wf(),
        ensures
            r == self.current_map().get(ControlId::Axis(axis)),
    {
        self.get_current(ControlId::Axis(axis))
    }

    /// The previous value of an axis, or `None` if never observed.
    pub fn get_last_axis_state(&self, axis: AxisId) -> (r: Option<KeyState>)
        requires
            self.wf(),
        ensures
            r == self.previous_map().get(ControlId::Axis(axis)),
    {
        self.get_previous(ControlId::Axis(axis))
    }
}

} // verus!
