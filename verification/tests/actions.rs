//! Action-tree interpretation and injector-outcome reporting.

use padmouse::controller::KeyState;
use padmouse::event::{
    eval_pred, first_failure, interpret, Event, InjectError, InjectorOp, KeyCode, MouseButton,
    Pred,
};

#[test]
fn primitives_emit_their_single_command() {
    let cases = vec![
        (Event::KeyClick(KeyCode::Unicode('x')), InjectorOp::KeyClick(KeyCode::Unicode('x'))),
        (Event::KeyPress(KeyCode::Raw(30)), InjectorOp::KeyPress(KeyCode::Raw(30))),
        (Event::KeyRelease(KeyCode::Raw(30)), InjectorOp::KeyRelease(KeyCode::Raw(30))),
        (Event::MouseClick(MouseButton::Left), InjectorOp::MouseClick(MouseButton::Left)),
        (Event::MousePress(MouseButton::Right), InjectorOp::MousePress(MouseButton::Right)),
        (Event::MouseRelease(MouseButton::Middle), InjectorOp::MouseRelease(MouseButton::Middle)),
        (Event::MouseMoveRel(-2, 5), InjectorOp::MouseMoveRel(-2, 5)),
        (Event::MouseMoveAbs(100, 200), InjectorOp::MouseMoveAbs(100, 200)),
        (Event::MouseScroll(1, -1), InjectorOp::MouseScroll(1, -1)),
    ];
    for (event, op) in cases {
        assert_eq!(interpret(&event, None), vec![op]);
    }
}

#[test]
fn noop_emits_nothing() {
    assert_eq!(interpret(&Event::NoOp, None), Vec::new());
}

#[test]
fn macro_emits_elements_in_order() {
    let tree = Event::Macro(vec![
        Event::KeyPress(KeyCode::Unicode('a')),
        Event::NoOp,
        Event::KeyRelease(KeyCode::Unicode('a')),
    ]);
    assert_eq!(
        interpret(&tree, None),
        vec![
            InjectorOp::KeyPress(KeyCode::Unicode('a')),
            InjectorOp::KeyRelease(KeyCode::Unicode('a')),
        ]
    );
}

#[test]
fn sequence_still_emits_later_steps_when_an_earlier_one_will_fail() {
    // The tree emits both commands unconditionally; whether the injector
    // rejects the first has no bearing on the second being issued.
    let tree = Event::Macro(vec![
        Event::MousePress(MouseButton::Left),
        Event::KeyClick(KeyCode::Unicode('b')),
    ]);
    let ops = interpret(&tree, None);
    assert_eq!(ops.len(), 2);
    assert_eq!(ops[1], InjectorOp::KeyClick(KeyCode::Unicode('b')));

    // The injector rejects the first command; the caller observes that
    // failure, and the record shows the second was still attempted.
    let outcomes = vec![Some(InjectError { code: 13 }), None];
    assert_eq!(first_failure(&outcomes), Some(InjectError { code: 13 }));
}

#[test]
fn first_failure_reports_the_earliest_rejection() {
    assert_eq!(first_failure(&Vec::new()), None);
    assert_eq!(first_failure(&vec![None, None, None]), None);
    assert_eq!(
        first_failure(&vec![None, Some(InjectError { code: 7 }), Some(InjectError { code: 9 })]),
        Some(InjectError { code: 7 })
    );
}

#[test]
fn condition_fires_only_with_a_pair_and_a_holding_predicate() {
    let inner = Box::new(Event::KeyClick(KeyCode::Unicode('z')));
    let tree = Event::Condition(Pred::KeyIs(true), inner);
    let pair = Some((KeyState::Key(true), KeyState::Key(false)));

    assert_eq!(interpret(&tree, pair).len(), 1);
    assert_eq!(
        interpret(&tree, Some((KeyState::Key(false), KeyState::Key(true)))).len(),
        0
    );
    // Without a value pair the condition never fires.
    assert_eq!(interpret(&tree, None).len(), 0);
}

#[test]
fn nested_condition_receives_no_pair_and_never_fires() {
    let nested = Event::Macro(vec![Event::Condition(
        Pred::Always,
        Box::new(Event::KeyClick(KeyCode::Unicode('q'))),
    )]);
    let pair = Some((KeyState::Key(true), KeyState::Key(false)));
    assert_eq!(interpret(&nested, pair).len(), 0);
}

#[test]
fn other_delegates_to_its_carried_action() {
    let tree = Event::Other(Box::new(Event::MouseScroll(0, -3)));
    assert_eq!(interpret(&tree, None), vec![InjectorOp::MouseScroll(0, -3)]);
}

#[test]
fn predicates_read_the_value_pair() {
    let k_true = KeyState::Key(true);
    let k_false = KeyState::Key(false);
    let t_low = KeyState::Trigger(300_000);
    let t_high = KeyState::Trigger(600_000);

    assert!(eval_pred(Pred::Always, k_true, k_false));
    assert!(!eval_pred(Pred::Never, k_true, k_false));
    assert!(eval_pred(Pred::KeyIs(true), k_true, k_false));
    assert!(!eval_pred(Pred::KeyIs(true), k_false, k_true));
    assert!(eval_pred(Pred::ValueAbove(500_000), t_high, t_low));
    assert!(!eval_pred(Pred::ValueAbove(500_000), t_low, t_high));
    assert!(!eval_pred(Pred::ValueAbove(500_000), k_true, k_false));
    assert!(eval_pred(Pred::ValueAtMost(500_000), t_low, t_high));
    assert!(!eval_pred(Pred::ValueAtMost(500_000), t_high, t_low));
    assert!(eval_pred(Pred::ValueChanged, t_low, t_high));
    assert!(!eval_pred(Pred::ValueChanged, t_low, t_low));
    assert!(eval_pred(Pred::ValueChanged, KeyState::Axis(1), KeyState::Axis(2)));
}
