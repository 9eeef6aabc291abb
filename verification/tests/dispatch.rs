//! Dispatch-engine behaviour: edge policies, combos, overwrite semantics.

use padmouse::binder::{Binder, Input, RawEvent};
use padmouse::controller::{AxisId, ButtonId, ControlId, GamepadState, KeyState};
use padmouse::event::{Event, InjectorOp, KeyCode};

const HALF: i64 = 500_000;

fn click_a() -> Event {
    Event::KeyClick(KeyCode::Unicode('a'))
}

fn op_click_a() -> InjectorOp {
    InjectorOp::KeyClick(KeyCode::Unicode('a'))
}

#[test]
fn on_press_fires_exactly_once_on_steady_press() {
    let x = ButtonId(7);
    let mut state = GamepadState::new();
    let mut binder = Binder::new();
    binder.add_mapping(Input::ButtonPressed(x), click_a());

    let first = binder.handle_events(&mut state, RawEvent::ButtonPressed(x));
    assert_eq!(first, vec![op_click_a()]);

    let second = binder.handle_events(&mut state, RawEvent::ButtonPressed(x));
    assert_eq!(second, Vec::new());

    let third = binder.handle_events(&mut state, RawEvent::ButtonPressed(x));
    assert_eq!(third, Vec::new());
}

#[test]
fn on_press_fires_again_after_release() {
    let x = ButtonId(7);
    let mut state = GamepadState::new();
    let mut binder = Binder::new();
    binder.add_mapping(Input::ButtonPressed(x), click_a());

    assert_eq!(binder.handle_events(&mut state, RawEvent::ButtonPressed(x)).len(), 1);
    assert_eq!(binder.handle_events(&mut state, RawEvent::ButtonReleased(x)).len(), 0);
    assert_eq!(binder.handle_events(&mut state, RawEvent::ButtonPressed(x)).len(), 1);
}

#[test]
fn on_release_fires_on_transition_only() {
    let x = ButtonId(2);
    let mut state = GamepadState::new();
    let mut binder = Binder::new();
    binder.add_mapping(Input::ButtonReleased(x), click_a());

    assert_eq!(binder.handle_events(&mut state, RawEvent::ButtonPressed(x)).len(), 0);
    assert_eq!(binder.handle_events(&mut state, RawEvent::ButtonReleased(x)).len(), 1);
    assert_eq!(binder.handle_events(&mut state, RawEvent::ButtonReleased(x)).len(), 0);
}

#[test]
fn rising_edge_fires_once_for_rise_through_threshold() {
    let t = ButtonId(4);
    let mut state = GamepadState::new();
    let mut binder = Binder::new();
    binder.add_mapping(Input::TriggerPressed(t, HALF), click_a());

    // 0.3: no previous value, and not a rise.
    assert_eq!(binder.handle_events(&mut state, RawEvent::ButtonChanged(t, 300_000)).len(), 0);
    // 0.6: rose from 0.3 (at or below the threshold) to above it.
    assert_eq!(binder.handle_events(&mut state, RawEvent::ButtonChanged(t, 600_000)).len(), 1);
    // 0.6 again: the previous value is already above the threshold.
    assert_eq!(binder.handle_events(&mut state, RawEvent::ButtonChanged(t, 600_000)).len(), 0);
    assert_eq!(binder.handle_events(&mut state, RawEvent::ButtonChanged(t, 600_000)).len(), 0);
}

#[test]
fn rising_edge_boundary_is_at_or_below_threshold() {
    let t = ButtonId(4);
    let mut state = GamepadState::new();
    let mut binder = Binder::new();
    binder.add_mapping(Input::TriggerPressed(t, HALF), click_a());

    // A value sitting exactly at the threshold has not risen.
    assert_eq!(binder.handle_events(&mut state, RawEvent::ButtonChanged(t, HALF)).len(), 0);
    assert_eq!(binder.handle_events(&mut state, RawEvent::ButtonChanged(t, HALF)).len(), 0);
    // Rising from exactly the threshold to above it is a rise: the boundary
    // for "not yet risen" is at-or-below.
    assert_eq!(binder.handle_events(&mut state, RawEvent::ButtonChanged(t, 510_000)).len(), 1);
    // And a steady value above the threshold never re-fires.
    assert_eq!(binder.handle_events(&mut state, RawEvent::ButtonChanged(t, 510_000)).len(), 0);
}

#[test]
fn falling_edge_fires_once_for_fall_through_threshold() {
    let t = ButtonId(5);
    let mut state = GamepadState::new();
    let mut binder = Binder::new();
    binder.add_mapping(Input::TriggerReleased(t, HALF), click_a());

    assert_eq!(binder.handle_events(&mut state, RawEvent::ButtonChanged(t, 800_000)).len(), 0);
    assert_eq!(binder.handle_events(&mut state, RawEvent::ButtonChanged(t, 400_000)).len(), 1);
    assert_eq!(binder.handle_events(&mut state, RawEvent::ButtonChanged(t, 400_000)).len(), 0);
}

#[test]
fn trigger_changed_fires_on_numeric_change_only() {
    let t = ButtonId(6);
    let mut state = GamepadState::new();
    let mut binder = Binder::new();
    binder.add_mapping(Input::TriggerChanged(t), click_a());

    // First observation: no previous value to compare against.
    assert_eq!(binder.handle_events(&mut state, RawEvent::ButtonChanged(t, 100_000)).len(), 0);
    assert_eq!(binder.handle_events(&mut state, RawEvent::ButtonChanged(t, 200_000)).len(), 1);
    assert_eq!(binder.handle_events(&mut state, RawEvent::ButtonChanged(t, 200_000)).len(), 0);
}

#[test]
fn axis_changed_fires_on_numeric_change_only() {
    let a = AxisId(0);
    let mut state = GamepadState::new();
    let mut binder = Binder::new();
    binder.add_mapping(Input::AxisChanged(a), click_a());

    assert_eq!(binder.handle_events(&mut state, RawEvent::AxisChanged(a, -500_000)).len(), 0);
    assert_eq!(binder.handle_events(&mut state, RawEvent::AxisChanged(a, 500_000)).len(), 1);
    assert_eq!(binder.handle_events(&mut state, RawEvent::AxisChanged(a, 500_000)).len(), 0);
}

#[test]
fn combo_fires_only_when_modifier_changes_while_main_is_active() {
    let a = ButtonId(1);
    let b = ButtonId(2);
    let mut state = GamepadState::new();
    let mut binder = Binder::new();
    binder.add_combo_mapping(
        Input::ButtonPressed(a),
        Input::ButtonPressed(b),
        Event::MouseMoveRel(3, 4),
    );

    // Only the main control changes: no combo.
    assert_eq!(binder.handle_events(&mut state, RawEvent::ButtonPressed(a)).len(), 0);
    // The modifier changes while the main is held: the combo fires.
    let ops = binder.handle_events(&mut state, RawEvent::ButtonPressed(b));
    assert_eq!(ops, vec![InjectorOp::MouseMoveRel(3, 4)]);
    // The main changes again while the modifier is held: still no combo,
    // because the event's control is not the modifier's.
    assert_eq!(binder.handle_events(&mut state, RawEvent::ButtonReleased(a)).len(), 0);
}

#[test]
fn combo_does_not_fire_without_active_main() {
    let a = ButtonId(1);
    let b = ButtonId(2);
    let mut state = GamepadState::new();
    let mut binder = Binder::new();
    binder.add_combo_mapping(
        Input::ButtonPressed(a),
        Input::ButtonPressed(b),
        Event::MouseMoveRel(3, 4),
    );

    // The modifier changes, but the main control has never been observed.
    assert_eq!(binder.handle_events(&mut state, RawEvent::ButtonPressed(b)).len(), 0);
}

#[test]
fn combo_takes_priority_over_single_mapping() {
    let a = ButtonId(1);
    let b = ButtonId(2);
    let mut state = GamepadState::new();
    let mut binder = Binder::new();
    binder.add_mapping(Input::ButtonPressed(b), click_a());
    binder.add_combo_mapping(
        Input::ButtonPressed(a),
        Input::ButtonPressed(b),
        Event::MouseMoveRel(3, 4),
    );

    // Without the main held, the single mapping fires.
    assert_eq!(
        binder.handle_events(&mut state, RawEvent::ButtonPressed(b)),
        vec![op_click_a()]
    );
    assert_eq!(binder.handle_events(&mut state, RawEvent::ButtonReleased(b)).len(), 0);
    // With the main held, the combo wins and the single mapping is skipped.
    assert_eq!(binder.handle_events(&mut state, RawEvent::ButtonPressed(a)).len(), 0);
    assert_eq!(
        binder.handle_events(&mut state, RawEvent::ButtonPressed(b)),
        vec![InjectorOp::MouseMoveRel(3, 4)]
    );
}

#[test]
fn last_registration_for_a_key_wins() {
    let x = ButtonId(9);
    let mut state = GamepadState::new();
    let mut binder = Binder::new();
    binder.add_mapping(Input::ButtonPressed(x), click_a());
    binder.add_mapping(Input::ButtonPressed(x), Event::MouseScroll(0, 1));

    assert_eq!(
        binder.handle_events(&mut state, RawEvent::ButtonPressed(x)),
        vec![InjectorOp::MouseScroll(0, 1)]
    );
}

#[test]
fn unmapped_control_dispatches_nothing() {
    let mut state = GamepadState::new();
    let mut binder = Binder::new();
    binder.add_mapping(Input::ButtonPressed(ButtonId(1)), click_a());

    assert_eq!(binder.handle_events(&mut state, RawEvent::ButtonPressed(ButtonId(2))).len(), 0);
    assert_eq!(binder.handle_events(&mut state, RawEvent::AxisChanged(AxisId(1), 12)).len(), 0);
}

#[test]
fn analog_payloads_are_clamped_into_range() {
    let t = ButtonId(3);
    let a = AxisId(3);
    let mut state = GamepadState::new();
    let binder = Binder::new();

    binder.handle_events(&mut state, RawEvent::ButtonChanged(t, 5_000_000));
    assert_eq!(
        state.get_button_state(t),
        Some(KeyState::Trigger(1_000_000))
    );
    binder.handle_events(&mut state, RawEvent::AxisChanged(a, -5_000_000));
    assert_eq!(state.get_axis_state(a), Some(KeyState::Axis(-1_000_000)));
}

#[test]
fn handle_events_commits_previous_after_dispatch() {
    let x = ButtonId(7);
    let mut state = GamepadState::new();
    let binder = Binder::new();

    binder.handle_events(&mut state, RawEvent::ButtonPressed(x));
    assert_eq!(state.get_button_state(x), Some(KeyState::Key(true)));
    assert_eq!(state.get_last_button_state(x), Some(KeyState::Key(true)));

    binder.handle_events(&mut state, RawEvent::ButtonReleased(x));
    assert_eq!(state.get_button_state(x), Some(KeyState::Key(false)));
    assert_eq!(state.get_last_button_state(x), Some(KeyState::Key(false)));
}

#[test]
fn store_tracks_current_and_previous_independently() {
    let x = ButtonId(0);
    let a = AxisId(0);
    let mut state = GamepadState::new();

    assert_eq!(state.get_button_state(x), None);
    assert_eq!(state.get_last_button_state(x), None);
    assert_eq!(state.get_axis_state(a), None);
    assert_eq!(state.get_last_axis_state(a), None);

    state.update_button(x, KeyState::Key(true));
    assert_eq!(state.get_button_state(x), Some(KeyState::Key(true)));
    assert_eq!(state.get_last_button_state(x), None);

    state.update_last_button(x, KeyState::Key(true));
    assert_eq!(state.get_last_button_state(x), Some(KeyState::Key(true)));

    state.update_axis(a, KeyState::Axis(250_000));
    state.update_last_axis(a, KeyState::Axis(-250_000));
    assert_eq!(state.get_axis_state(a), Some(KeyState::Axis(250_000)));
    assert_eq!(state.get_last_axis_state(a), Some(KeyState::Axis(-250_000)));

    // A button and an axis with the same numeric identifier are distinct
    // controls.
    assert_eq!(state.get_button_state(ButtonId(0)), Some(KeyState::Key(true)));

    let _ = ControlId::Button(x);
}

#[test]
fn excute_event_interprets_a_tree_directly() {
    let tree = Event::Macro(vec![click_a(), Event::MouseScroll(2, 0)]);
    let ops = Binder::excute_event(&tree, None);
    assert_eq!(ops, vec![op_click_a(), InjectorOp::MouseScroll(2, 0)]);
}

#[test]
fn end_to_end_press_issues_exactly_one_key_click() {
    let x = ButtonId(11);
    let mut state = GamepadState::new();
    let mut binder = Binder::new();
    binder.add_mapping(Input::ButtonPressed(x), Event::KeyClick(KeyCode::Unicode('a')));

    let ops = binder.handle_events(&mut state, RawEvent::ButtonPressed(x));
    assert_eq!(ops, vec![InjectorOp::KeyClick(KeyCode::Unicode('a'))]);
}
