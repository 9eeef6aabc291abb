//! The dispatch engine.
//!
//! A [`Binder`] owns two mapping tables: single-input mappings from an
//! [`Input`] (a control together with its matching condition) to an action,
//! and combo mappings from a `(main, modifier)` pair of inputs to an action.
//! On each raw device event the engine updates the store's current value,
//! evaluates the edge / threshold policy of every mapping registered against
//! the changed control — combos first —, interprets the matched action, and
//! only then commits the control's previous value, so edge detection always
//! compares against the value observed strictly before the event.

use vstd::prelude::*;

use crate::assoc::{distinct_keys, key_index, lemma_key_index_absent, lemma_key_index_at,
    lemma_map_of_push, lemma_map_of_update, map_of};
use crate::controller::{AxisId, ButtonId, ControlId, GamepadState, KeyState};
use crate::event::{emitted, interpret, Event, InjectorOp};
use crate::fixed::{fx_clamp, spec_clamp, Fx, SCALE};

verus! {

/// A matching condition bound to one control: which control must change, and
/// which edge or threshold test must hold of its value pair.
#[derive(Clone, Copy, PartialEq, Eq, Structural, Hash, Debug)]
pub enum Input {
    /// The button's current value is pressed and its previous value was not.
    ButtonPressed(ButtonId),
    /// The button's current value is released and its previous value was not.
    ButtonReleased(ButtonId),
    /// The trigger's value rose strictly above the threshold: current above,
    /// previous at or below.
    TriggerPressed(ButtonId, Fx),
    /// The trigger's value fell to the threshold or below: current at or
    /// below, previous above.
    TriggerReleased(ButtonId, Fx),
    /// The trigger's value changed.
    TriggerChanged(ButtonId),
    /// The axis's value changed.
    AxisChanged(AxisId),
}

/// A raw device event: what the polling capability hands the engine.
/// Analog payloads are clamped into range by the engine, never rejected.
#[derive(Clone, Copy, PartialEq, Eq, Structural, Debug)]
pub enum RawEvent {
    ButtonPressed(ButtonId),
    ButtonReleased(ButtonId),
    /// Trigger pressure, nominally in `[0, SCALE]`.
    ButtonChanged(ButtonId, Fx),
    /// Stick deflection, nominally in `[-SCALE, SCALE]`.
    AxisChanged(AxisId, Fx),
}

/// The control an input is bound to.
pub open spec fn control_of(input: Input) -> ControlId {
    match input {
        Input::ButtonPressed(b) => ControlId::Button(b),
        Input::ButtonReleased(b) => ControlId::Button(b),
        Input::TriggerPressed(b, _) => ControlId::Button(b),
        Input::TriggerReleased(b, _) => ControlId::Button(b),
        Input::TriggerChanged(b) => ControlId::Button(b),
        Input::AxisChanged(a) => ControlId::Axis(a),
    }
}

/// The control an input is bound to.
pub fn input_control(input: Input) -> (r: ControlId)
    ensures
        r == control_of(input),
{
    match input {
        Input::ButtonPressed(b) => ControlId::Button(b),
        Input::ButtonReleased(b) => ControlId::Button(b),
        Input::TriggerPressed(b, _) => ControlId::Button(b),
        Input::TriggerReleased(b, _) => ControlId::Button(b),
        Input::TriggerChanged(b) => ControlId::Button(b),
        Input::AxisChanged(a) => ControlId::Axis(a),
    }
}

/// How a raw event reads as a store observation: the control it concerns and
/// the value to record, analog payloads clamped into their range.
pub open spec fn translate_spec(raw: RawEvent) -> (ControlId, KeyState) {
    match raw {
        RawEvent::ButtonPressed(b) => (ControlId::Button(b), KeyState::Key(true)),
        RawEvent::ButtonReleased(b) => (ControlId::Button(b), KeyState::Key(false)),
        RawEvent::ButtonChanged(b, v) => (
            ControlId::Button(b),
            KeyState::Trigger(spec_clamp(v as int, 0, SCALE as int) as Fx),
        ),
        RawEvent::AxisChanged(a, v) => (
            ControlId::Axis(a),
            KeyState::Axis(spec_clamp(v as int, -(SCALE as int), SCALE as int) as Fx),
        ),
    }
}

/// Translate a raw event into the `(control, value)` observation it records.
pub fn translate(raw: RawEvent) -> (r: (ControlId, KeyState))
    ensures
        r == translate_spec(raw),
{
    match raw {
        RawEvent::ButtonPressed(b) => (ControlId::Button(b), KeyState::Key(true)),
        RawEvent::ButtonReleased(b) => (ControlId::Button(b), KeyState::Key(false)),
        RawEvent::ButtonChanged(b, v) => (
            ControlId::Button(b),
            KeyState::Trigger(fx_clamp(v, 0, SCALE)),
        ),
        RawEvent::AxisChanged(a, v) => (
            ControlId::Axis(a),
            KeyState::Axis(fx_clamp(v, -SCALE, SCALE)),
        ),
    }
}

/// The edge / threshold policy of single-input dispatch: does the input's
/// condition hold of the control's current and previous values?  An absent
/// value never satisfies an analog test; an absent previous digital value
/// counts as "not yet in the current state", so the first observation of a
/// press fires `ButtonPressed`.
pub open spec fn policy_matches(
    input: Input,
    cur: Option<KeyState>,
    prev: Option<KeyState>,
) -> bool {
    match input {
        Input::ButtonPressed(_) => cur == Some(KeyState::Key(true)) && prev != Some(
            KeyState::Key(true),
        ),
        Input::ButtonReleased(_) => cur == Some(KeyState::Key(false)) && prev != Some(
            KeyState::Key(false),
        ),
        Input::TriggerPressed(_, t) => cur matches Some(KeyState::Trigger(v)) && prev matches Some(
            KeyState::Trigger(l),
        ) && v > t && l <= t,
        Input::TriggerReleased(_, t) => cur matches Some(KeyState::Trigger(v)) && prev matches Some(
            KeyState::Trigger(l),
        ) && v <= t && l > t,
        Input::TriggerChanged(_) => cur matches Some(KeyState::Trigger(v)) && prev matches Some(
            KeyState::Trigger(l),
        ) && v != l,
        Input::AxisChanged(_) => cur matches Some(KeyState::Axis(v)) && prev matches Some(
            KeyState::Axis(l),
        ) && v != l,
    }
}

/// The activity test a combo applies to each of its inputs: a digital input
/// is active while the button sits in the named state; an analog input is
/// active exactly when its edge policy holds.  A control never observed is
/// inactive.
pub open spec fn is_active_spec(
    input: Input,
    cur: Option<KeyState>,
    prev: Option<KeyState>,
) -> bool {
    match input {
        Input::ButtonPressed(_) => cur == Some(KeyState::Key(true)),
        Input::ButtonReleased(_) => cur == Some(KeyState::Key(false)),
        _ => policy_matches(input, cur, prev),
    }
}

/// The value pair handed to a fired single mapping's conditional: for a
/// digital input the transition pair, for an analog input the control's
/// actual current and previous values.
pub open spec fn state_pair(
    input: Input,
    cur: Option<KeyState>,
    prev: Option<KeyState>,
) -> Option<(KeyState, KeyState)> {
    match input {
        Input::ButtonPressed(_) => Some((KeyState::Key(true), KeyState::Key(false))),
        Input::ButtonReleased(_) => Some((KeyState::Key(false), KeyState::Key(true))),
        _ => if cur is Some && prev is Some {
            Some((cur->0, prev->0))
        } else {
            None
        },
    }
}

/// Whether an input is active in a store snapshot, looking its own control up.
pub open spec fn active_in(
    input: Input,
    cur: Map<ControlId, KeyState>,
    prev: Map<ControlId, KeyState>,
) -> bool {
    is_active_spec(input, cur.get(control_of(input)), prev.get(control_of(input)))
}

/// Whether a combo entry fires on an event for control `id`: the modifier is
/// the control that changed, and main and modifier are both active.
pub open spec fn combo_fires(
    key: (Input, Input),
    cur: Map<ControlId, KeyState>,
    prev: Map<ControlId, KeyState>,
    id: ControlId,
) -> bool {
    &&& control_of(key.1) == id
    &&& active_in(key.1, cur, prev)
    &&& active_in(key.0, cur, prev)
}

/// Whether a single mapping fires on an event for control `id`: it is bound
/// to that control and its policy holds of the control's value pair.
pub open spec fn single_fires(
    input: Input,
    cur: Map<ControlId, KeyState>,
    prev: Map<ControlId, KeyState>,
    id: ControlId,
) -> bool {
    control_of(input) == id && policy_matches(input, cur.get(id), prev.get(id))
}

/// The position of the first combo entry that fires, in registration order.
pub open spec fn find_combo_index(
    combos: Seq<((Input, Input), Event)>,
    cur: Map<ControlId, KeyState>,
    prev: Map<ControlId, KeyState>,
    id: ControlId,
) -> Option<int>
    decreases combos.len(),
{
    if combos.len() == 0 {
        None
    } else if combo_fires(combos[0].0, cur, prev, id) {
        Some(0)
    } else {
        match find_combo_index(combos.drop_first(), cur, prev, id) {
            Some(i) => Some(i + 1),
            None => None,
        }
    }
}

/// The position of the first single mapping that fires, in registration
/// order.
pub open spec fn find_single_index(
    singles: Seq<(Input, Event)>,
    cur: Map<ControlId, KeyState>,
    prev: Map<ControlId, KeyState>,
    id: ControlId,
) -> Option<int>
    decreases singles.len(),
{
    if singles.len() == 0 {
        None
    } else if single_fires(singles[0].0, cur, prev, id) {
        Some(0)
    } else {
        match find_single_index(singles.drop_first(), cur, prev, id) {
            Some(i) => Some(i + 1),
            None => None,
        }
    }
}

/// Everything one event dispatches: the commands of the first firing combo,
/// or else of the first firing single mapping (interpreted against the value
/// pair that triggered it), or nothing.  `cur` is the store's current buffer
/// after the event's own value is recorded; `prev` is the buffer as committed
/// before the event.
pub open spec fn dispatch_ops(
    combos: Seq<((Input, Input), Event)>,
    singles: Seq<(Input, Event)>,
    cur: Map<ControlId, KeyState>,
    prev: Map<ControlId, KeyState>,
    id: ControlId,
) -> Seq<InjectorOp> {
    match find_combo_index(combos, cur, prev, id) {
        Some(i) => emitted(combos[i].1, None),
        None => match find_single_index(singles, cur, prev, id) {
            Some(i) => emitted(
                singles[i].1,
                state_pair(singles[i].0, cur.get(id), prev.get(id)),
            ),
            None => Seq::empty(),
        },
    }
}

/// The mapping tables: single-input bindings and combo bindings, each a
/// last-registration-wins table kept in registration order.
pub struct Binder {
    mappings: Vec<(Input, Event)>,
    combo_mappings: Vec<((Input, Input), Event)>,
}

impl Binder {
    /// The single-input table, in registration order.
    pub closed spec fn mappings_seq(&self) -> Seq<(Input, Event)> {
        self.mappings@
    }

    /// The combo table, in registration order.
    pub closed spec fn combos_seq(&self) -> Seq<((Input, Input), Event)> {
        self.combo_mappings@
    }

    /// The single-input table as a map.
    pub open spec fn mappings_map(&self) -> Map<Input, Event> {
        map_of(self.mappings_seq())
    }

    /// The combo table as a map.
    pub open spec fn combos_map(&self) -> Map<(Input, Input), Event> {
        map_of(self.combos_seq())
    }

    /// Each table holds at most one entry per key.
    pub closed spec fn wf(&self) -> bool {
        distinct_keys(self.mappings@) && distinct_keys(self.combo_mappings@)
    }

    /// An empty binder: nothing is mapped.
    pub fn new() -> (r: Binder)
        ensures
            r.wf(),
            r.mappings_seq() == Seq::<(Input, Event)>::empty(),
            r.combos_seq() == Seq::<((Input, Input), Event)>::empty(),
    {
        Binder { mappings: Vec::new(), combo_mappings: Vec::new() }
    }

    /// Register a single-input mapping; a later registration for the same
    /// input replaces the earlier one in place, otherwise the mapping is
    /// appended.
    pub fn add_mapping(&mut self, input: Input, event: Event)
        requires
            old(self).wf(),
        ensures
            final(self).wf(),
            final(self).mappings_seq() == (match key_index(old(self).mappings_seq(), input) {
                Some(j) => old(self).mappings_seq().update(j, (input, event)),
                None => old(self).mappings_seq().push((input, event)),
            }),
            final(self).mappings_map() == old(self).mappings_map().insert(input, event),
            final(self).combos_seq() == old(self).combos_seq(),
    {
        let n = self.mappings.len();
        let mut i: usize = 0;
        while i < n
            invariant
                n == self.mappings.len(),
                i <= n,
                forall|j: int| 0 <= j < i ==> self.mappings@[j].0 != input,
                self.wf(),
                self.mappings@ == old(self).mappings@,
                self.combo_mappings@ == old(self).combo_mappings@,
            decreases n - i,
        {
            if self.mappings[i].0 == input {
                proof {
                    lemma_key_index_at(self.mappings@, input, i as int);
                    lemma_map_of_update(self.mappings@, i as int, input, event);
                }
                self.mappings[i] = (input, event);
                return;
            }
            i += 1;
        }
        proof {
            lemma_key_index_absent(self.mappings@, input);
            lemma_map_of_push(self.mappings@, input, event);
        }
        self.mappings.push((input, event));
    }

    /// Register a combo mapping under its `(main, modifier)` pair, with the
    /// same replace-or-append behaviour as `add_mapping`.
    #[verifier::loop_isolation(false)]
    pub fn add_combo_mapping(&mut self, main: Input, modifier: Input, event: Event)
        requires
            old(self).wf(),
        ensures
            final(self).wf(),
            final(self).combos_seq() == (match key_index(
                old(self).combos_seq(),
                (main, modifier),
            ) {
                Some(j) => old(self).combos_seq().update(j, ((main, modifier), event)),
                None => old(self).combos_seq().push(((main, modifier), event)),
            }),
            final(self).combos_map() == old(self).combos_map().insert((main, modifier), event),
            final(self).mappings_seq() == old(self).mappings_seq(),
    {
        let key = (main, modifier);
        let n = self.combo_mappings.len();
        let mut i: usize = 0;
        while i < n
            invariant
                n == self.combo_mappings.len(),
                i <= n,
                forall|j: int| 0 <= j < i ==> self.combo_mappings@[j].0 != key,
                self.wf(),
                self.mappings@ == old(self).mappings@,
                self.combo_mappings@ == old(self).combo_mappings@,
            decreases n - i,
        {
            if self.combo_mappings[i].0.0 == main && self.combo_mappings[i].0.1 == modifier {
                proof {
                    assert(self.combo_mappings@[i as int].0 =~= key);
                    lemma_key_index_at(self.combo_mappings@, key, i as int);
                    lemma_map_of_update(self.combo_mappings@, i as int, key, event);
                }
                self.combo_mappings[i] = (key, event);
                return;
            }
            i += 1;
        }
        proof {
            lemma_key_index_absent(self.combo_mappings@, key);
            lemma_map_of_push(self.combo_mappings@, key, event);
        }
        self.combo_mappings.push((key, event));
    }

    /// Interpret an action tree: the engine's own entry point to the
    /// interpreter, emitting exactly the tree's commands for the value pair.
    pub fn excute_event(event: &Event, states: Option<(KeyState, KeyState)>) -> (ops: Vec<
        InjectorOp,
    >)
        ensures
            ops@ == emitted(*event, states),
    {
        interpret(event, states)
    }

    /// The combo activity test: `Some` with the value pair the input sees
    /// exactly when the input is active in the store.
    pub fn is_active(gamepad_state: &GamepadState, input: &Input) -> (r: Option<
        (KeyState, KeyState),
    >)
        requires
            gamepad_state.wf(),
        ensures
            r is Some <==> active_in(
                *input,
                gamepad_state.current_map(),
                gamepad_state.previous_map(),
            ),
            r is Some ==> r == state_pair(
                *input,
                gamepad_state.current_map().get(control_of(*input)),
                gamepad_state.previous_map().get(control_of(*input)),
            ),
    {
        let id = input_control(*input);
        let cur = gamepad_state.get_current(id);
        let prev = gamepad_state.get_previous(id);
        match *input {
            Input::ButtonPressed(_) => {
                if cur == Some(KeyState::Key(true)) {
                    Some((KeyState::Key(true), KeyState::Key(false)))
                } else {
                    None
                }
            },
            Input::ButtonReleased(_) => {
                if cur == Some(KeyState::Key(false)) {
                    Some((KeyState::Key(false), KeyState::Key(true)))
                } else {
                    None
                }
            },
            _ => Self::policy_pair(*input, cur, prev),
        }
    }

    /// The single-dispatch policy test: `Some` with the value pair to hand
    /// to the mapping's action exactly when the policy matches.
    fn policy_pair(input: Input, cur: Option<KeyState>, prev: Option<KeyState>) -> (r: Option<
        (KeyState, KeyState),
    >)
        ensures
            r is Some <==> policy_matches(input, cur, prev),
            r is Some ==> r == state_pair(input, cur, prev),
    {
        match input {
            Input::ButtonPressed(_) => {
                if cur == Some(KeyState::Key(true)) && prev != Some(KeyState::Key(true)) {
                    Some((KeyState::Key(true), KeyState::Key(false)))
                } else {
                    None
                }
            },
            Input::ButtonReleased(_) => {
                if cur == Some(KeyState::Key(false)) && prev != Some(KeyState::Key(false)) {
                    Some((KeyState::Key(false), KeyState::Key(true)))
                } else {
                    None
                }
            },
            Input::TriggerPressed(_, t) => match (cur, prev) {
                (Some(KeyState::Trigger(v)), Some(KeyState::Trigger(l))) => {
                    if v > t && l <= t {
                        Some((KeyState::Trigger(v), KeyState::Trigger(l)))
                    } else {
                        None
                    }
                },
                _ => None,
            },
            Input::TriggerReleased(_, t) => match (cur, prev) {
                (Some(KeyState::Trigger(v)), Some(KeyState::Trigger(l))) => {
                    if v <= t && l > t {
                        Some((KeyState::Trigger(v), KeyState::Trigger(l)))
                    } else {
                        None
                    }
                },
                _ => None,
            },
            Input::TriggerChanged(_) => match (cur, prev) {
                (Some(KeyState::Trigger(v)), Some(KeyState::Trigger(l))) => {
                    if v != l {
                        Some((KeyState::Trigger(v), KeyState::Trigger(l)))
                    } else {
                        None
                    }
                },
                _ => None,
            },
            Input::AxisChanged(_) => match (cur, prev) {
                (Some(KeyState::Axis(v)), Some(KeyState::Axis(l))) => {
                    if v != l {
                        Some((KeyState::Axis(v), KeyState::Axis(l)))
                    } else {
                        None
                    }
                },
                _ => None,
            },
        }
    }

    /// Process one raw device event: record its value, dispatch the first
    /// firing combo or else the first firing single mapping, and only then
    /// commit the control's previous value.  The returned commands are
    /// exactly what the event dispatches against the pre-event `previous`
    /// buffer.
    #[verifier::loop_isolation(false)]
    pub fn handle_events(&self, gamepad_state: &mut GamepadState, input: RawEvent) -> (ops: Vec<
        InjectorOp,
    >)
        requires
            self.wf(),
            old(gamepad_state).wf(),
        ensures
            final(gamepad_state).wf(),
            final(gamepad_state).current_map() == old(gamepad_state).current_map().insert(
                translate_spec(input).0,
                translate_spec(input).1,
            ),
            final(gamepad_state).previous_map() == old(gamepad_state).previous_map().insert(
                translate_spec(input).0,
                translate_spec(input).1,
            ),
            ops@ == dispatch_ops(
                self.combos_seq(),
                self.mappings_seq(),
                old(gamepad_state).current_map().insert(
                    translate_spec(input).0,
                    translate_spec(input).1,
                ),
                old(gamepad_state).previous_map(),
                translate_spec(input).0,
            ),
    {
        let (id, value) = translate(input);
        gamepad_state.update(id, value);
        let ghost cur = gamepad_state.current_map();
        let ghost prev = gamepad_state.previous_map();

        // Combos take priority: the first whose modifier is this control and
        // whose two inputs are both active.
        let nc = self.combo_mappings.len();
        let mut ci: usize = 0;
        while ci < nc
            invariant
                self.wf(),
                gamepad_state.wf(),
                nc == self.combo_mappings@.len(),
                ci <= nc,
                gamepad_state.current_map() == cur,
                gamepad_state.previous_map() == prev,
                forall|j: int| 0 <= j < ci ==> !combo_fires(self.combo_mappings@[j].0, cur, prev, id),
            decreases nc - ci,
        {
            let entry = &self.combo_mappings[ci];
            let modifier_matches = input_control(entry.0.1) == id;
            if modifier_matches && Self::is_active(gamepad_state, &entry.0.1).is_some()
                && Self::is_active(gamepad_state, &entry.0.0).is_some() {
                proof {
                    lemma_find_combo_at(self.combo_mappings@, cur, prev, id, ci as int);
                }
                let ops = Self::excute_event(&entry.1, None);
                gamepad_state.commit(id, value);
                return ops;
            }
            ci += 1;
        }
        proof {
            lemma_find_combo_none(self.combo_mappings@, cur, prev, id);
        }

        // Single-input mappings: the first bound to this control whose
        // policy holds of the value pair.
        let cur_val = gamepad_state.get_current(id);
        let prev_val = gamepad_state.get_previous(id);
        let ns = self.mappings.len();
        let mut si: usize = 0;
        while si < ns
            invariant
                self.wf(),
                gamepad_state.wf(),
                ns == self.mappings@.len(),
                si <= ns,
                gamepad_state.current_map() == cur,
                gamepad_state.previous_map() == prev,
                cur_val == cur.get(id),
                prev_val == prev.get(id),
                forall|j: int| 0 <= j < si ==> !single_fires(self.mappings@[j].0, cur, prev, id),
            decreases ns - si,
        {
            let entry = &self.mappings[si];
            if input_control(entry.0) == id {
                if let Some(pair) = Self::policy_pair(entry.0, cur_val, prev_val) {
                    proof {
                        lemma_find_single_at(self.mappings@, cur, prev, id, si as int);
                    }
                    let ops = Self::excute_event(&entry.1, Some(pair));
                    gamepad_state.commit(id, value);
                    return ops;
                }
            }
            si += 1;
        }
        proof {
            lemma_find_single_none(self.mappings@, cur, prev, id);
        }
        gamepad_state.commit(id, value);
        Vec::new()
    }
}

/// A steady digital press never re-fires: once a pressed value has been
/// committed as a control's previous value, a repeated pressed event for
/// that control dispatches nothing through the single-input table, whatever
/// mappings the table holds.  Together with the commit the engine performs
/// after each dispatch, each steady press fires exactly once, on its
/// transition.
pub proof fn lemma_on_press_no_refire(
    singles: Seq<(Input, Event)>,
    cur: Map<ControlId, KeyState>,
    prev: Map<ControlId, KeyState>,
    b: ButtonId,
)
    requires
        prev.get(ControlId::Button(b)) == Some(KeyState::Key(true)),
    ensures
        dispatch_ops(
            Seq::<((Input, Input), Event)>::empty(),
            singles,
            cur.insert(ControlId::Button(b), KeyState::Key(true)),
            prev,
            ControlId::Button(b),
        ) == Seq::<InjectorOp>::empty(),
{
    let id = ControlId::Button(b);
    let c2 = cur.insert(id, KeyState::Key(true));
    assert forall|i: int| 0 <= i < singles.len() implies !single_fires(
        singles[i].0,
        c2,
        prev,
        id,
    ) by {
        assert(c2.get(id) == Some(KeyState::Key(true)));
    }
    lemma_find_single_none(singles, c2, prev, id);
}

/// An unchanged trigger value never re-fires: once a trigger value has been
/// committed as the control's previous value, a follow-up event carrying the
/// same value dispatches nothing through the single-input table — neither
/// edge fires at a steady value, whatever the thresholds.
pub proof fn lemma_steady_trigger_no_refire(
    singles: Seq<(Input, Event)>,
    cur: Map<ControlId, KeyState>,
    prev: Map<ControlId, KeyState>,
    b: ButtonId,
    v: Fx,
)
    requires
        prev.get(ControlId::Button(b)) == Some(KeyState::Trigger(v)),
    ensures
        dispatch_ops(
            Seq::<((Input, Input), Event)>::empty(),
            singles,
            cur.insert(ControlId::Button(b), KeyState::Trigger(v)),
            prev,
            ControlId::Button(b),
        ) == Seq::<InjectorOp>::empty(),
{
    let id = ControlId::Button(b);
    let c2 = cur.insert(id, KeyState::Trigger(v));
    assert forall|i: int| 0 <= i < singles.len() implies !single_fires(
        singles[i].0,
        c2,
        prev,
        id,
    ) by {
        assert(c2.get(id) == Some(KeyState::Trigger(v)));
    }
    lemma_find_single_none(singles, c2, prev, id);
}

/// A combo dispatches only on an event for its modifier's control: an event
/// for any other control finds no combo to fire, however active both of its
/// inputs are.
pub proof fn lemma_combo_needs_modifier_event(
    combos: Seq<((Input, Input), Event)>,
    cur: Map<ControlId, KeyState>,
    prev: Map<ControlId, KeyState>,
    id: ControlId,
)
    requires
        forall|i: int| 0 <= i < combos.len() ==> control_of(#[trigger] combos[i].0.1) != id,
    ensures
        find_combo_index(combos, cur, prev, id) is None,
{
    lemma_find_combo_none(combos, cur, prev, id);
}

/// On an event for the modifier's control, the first combo whose main and
/// modifier are both active is dispatched, and every single mapping is
/// skipped.
pub proof fn lemma_combo_priority(
    combos: Seq<((Input, Input), Event)>,
    singles: Seq<(Input, Event)>,
    cur: Map<ControlId, KeyState>,
    prev: Map<ControlId, KeyState>,
    id: ControlId,
    j: int,
)
    requires
        0 <= j < combos.len(),
        combo_fires(combos[j].0, cur, prev, id),
        forall|i: int| 0 <= i < j ==> !combo_fires(#[trigger] combos[i].0, cur, prev, id),
    ensures
        dispatch_ops(combos, singles, cur, prev, id) == emitted(combos[j].1, None),
{
    lemma_find_combo_at(combos, cur, prev, id, j);
}

/// A combo entry that fires, with none before it firing, is the one
/// dispatched.
proof fn lemma_find_combo_at(
    combos: Seq<((Input, Input), Event)>,
    cur: Map<ControlId, KeyState>,
    prev: Map<ControlId, KeyState>,
    id: ControlId,
    j: int,
)
    requires
        0 <= j < combos.len(),
        combo_fires(combos[j].0, cur, prev, id),
        forall|i: int| 0 <= i < j ==> !combo_fires(combos[i].0, cur, prev, id),
    ensures
        find_combo_index(combos, cur, prev, id) == Some(j),
    decreases combos.len(),
{
    if j > 0 {
        lemma_find_combo_at(combos.drop_first(), cur, prev, id, j - 1);
    }
}

/// If no combo entry fires, none is found.
proof fn lemma_find_combo_none(
    combos: Seq<((Input, Input), Event)>,
    cur: Map<ControlId, KeyState>,
    prev: Map<ControlId, KeyState>,
    id: ControlId,
)
    requires
        forall|i: int| 0 <= i < combos.len() ==> !combo_fires(combos[i].0, cur, prev, id),
    ensures
        find_combo_index(combos, cur, prev, id) is None,
    decreases combos.len(),
{
    if combos.len() > 0 {
        lemma_find_combo_none(combos.drop_first(), cur, prev, id);
    }
}

/// A single mapping that fires, with none before it firing, is the one
/// dispatched.
proof fn lemma_find_single_at(
    singles: Seq<(Input, Event)>,
    cur: Map<ControlId, KeyState>,
    prev: Map<ControlId, KeyState>,
    id: ControlId,
    j: int,
)
    requires
        0 <= j < singles.len(),
        single_fires(singles[j].0, cur, prev, id),
        forall|i: int| 0 <= i < j ==> !single_fires(singles[i].0, cur, prev, id),
    ensures
        find_single_index(singles, cur, prev, id) == Some(j),
    decreases singles.len(),
{
    if j > 0 {
        lemma_find_single_at(singles.drop_first(), cur, prev, id, j - 1);
    }
}

/// If no single mapping fires, none is found.
proof fn lemma_find_single_none(
    singles: Seq<(Input, Event)>,
    cur: Map<ControlId, KeyState>,
    prev: Map<ControlId, KeyState>,
    id: ControlId,
)
    requires
        forall|i: int| 0 <= i < singles.len() ==> !single_fires(singles[i].0, cur, prev, id),
    ensures
        find_single_index(singles, cur, prev, id) is None,
    decreases singles.len(),
{
    if singles.len() > 0 {
        lemma_find_single_none(singles.drop_first(), cur, prev, id);
    }
}

} // verus!
