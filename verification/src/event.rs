//! Action trees and their interpreter.
//!
//! An [`Event`] is a small recursive expression describing what to synthesize
//! when a binding fires: a primitive injector command, an ordered sequence, a
//! conditional over the firing control's value pair, a delegated action, or
//! nothing.  Interpreting a tree yields the exact list of [`InjectorOp`]
//! commands to hand to the output-injection capability; issuing them is the
//! surrounding layer's business.  The injector reports success or failure per
//! command; a failure does not stop the remaining commands of a sequence, and
//! [`first_failure`] is what the caller of the interpreter observes.

use vstd::prelude::*;

use crate::fixed::Fx;
use crate::controller::KeyState;

verus! {

/// A key to synthesize: a character, or a platform key code.
#[derive(Clone, Copy, PartialEq, Eq, Structural, Debug)]
pub enum KeyCode {
    Unicode(char),
    Raw(u32),
}

/// A mouse button to synthesize.
#[derive(Clone, Copy, PartialEq, Eq, Structural, Debug)]
pub enum MouseButton {
    Left,
    Middle,
    Right,
    Back,
    Forward,
}

/// A primitive command for the output injector.
#[derive(Clone, Copy, PartialEq, Eq, Structural, Debug)]
pub enum InjectorOp {
    KeyClick(KeyCode),
    KeyPress(KeyCode),
    KeyRelease(KeyCode),
    MouseClick(MouseButton),
    MousePress(MouseButton),
    MouseRelease(MouseButton),
    MouseMoveRel(i32, i32),
    MouseMoveAbs(i32, i32),
    MouseScroll(i32, i32),
}

/// A predicate over the value pair `(current, previous)` that triggered a
/// dispatch.  Predicates are plain data, so a conditional action is equal to
/// another conditional action and can be inspected and tested on its own.
#[derive(Clone, Copy, PartialEq, Eq, Structural, Debug)]
pub enum Pred {
    /// Holds of every value pair.
    Always,
    /// Holds of no value pair.
    Never,
    /// The current value is the given digital state.
    KeyIs(bool),
    /// The current value is analog and exceeds the threshold.
    ValueAbove(Fx),
    /// The current value is analog and does not exceed the threshold.
    ValueAtMost(Fx),
    /// The current value differs from the previous one.
    ValueChanged,
}

/// The analog payload of a value, if it has one.
pub open spec fn analog_value(s: KeyState) -> Option<Fx> {
    match s {
        KeyState::Key(_) => None,
        KeyState::Trigger(v) => Some(v),
        KeyState::Axis(v) => Some(v),
    }
}

/// What a predicate says of a value pair.
pub open spec fn pred_holds(p: Pred, current: KeyState, previous: KeyState) -> bool {
    match p {
        Pred::Always => true,
        Pred::Never => false,
        Pred::KeyIs(b) => current == KeyState::Key(b),
        Pred::ValueAbove(t) => analog_value(current) matches Some(v) && v > t,
        Pred::ValueAtMost(t) => analog_value(current) matches Some(v) && v <= t,
        Pred::ValueChanged => current != previous,
    }
}

/// Evaluate a predicate on the value pair that triggered a dispatch.
pub fn eval_pred(p: Pred, current: KeyState, previous: KeyState) -> (r: bool)
    ensures
        r == pred_holds(p, current, previous),
{
    match p {
        Pred::Always => true,
        Pred::Never => false,
        Pred::KeyIs(b) => current == KeyState::Key(b),
        Pred::ValueAbove(t) => match current {
            KeyState::Key(_) => false,
            KeyState::Trigger(v) => v > t,
            KeyState::Axis(v) => v > t,
        },
        Pred::ValueAtMost(t) => match current {
            KeyState::Key(_) => false,
            KeyState::Trigger(v) => v <= t,
            KeyState::Axis(v) => v <= t,
        },
        Pred::ValueChanged => current != previous,
    }
}

/// An output action, immutable once registered.
///
/// `Macro` interprets its elements strictly in order.  `Condition` interprets
/// its inner tree only if the predicate holds of the value pair that
/// triggered the dispatch; a nested condition, which receives no such pair,
/// never fires.  `Other` carries a delegated action by value and interprets
/// it at fire time.
#[derive(Debug)]
pub enum Event {
    KeyClick(KeyCode),
    KeyPress(KeyCode),
    KeyRelease(KeyCode),
    MouseClick(MouseButton),
    MousePress(MouseButton),
    MouseRelease(MouseButton),
    MouseMoveRel(i32, i32),
    MouseMoveAbs(i32, i32),
    MouseScroll(i32, i32),
    Macro(Vec<Event>),
    Condition(Pred, Box<Event>),
    Other(Box<Event>),
    NoOp,
}

/// The commands an action emits when interpreted against the value pair that
/// triggered the dispatch (`None` when no pair accompanies the firing, as for
/// a combo or any nested action).
pub open spec fn emitted(e: Event, states: Option<(KeyState, KeyState)>) -> Seq<InjectorOp>
    decreases e,
{
    match e {
        Event::KeyClick(k) => seq![InjectorOp::KeyClick(k)],
        Event::KeyPress(k) => seq![InjectorOp::KeyPress(k)],
        Event::KeyRelease(k) => seq![InjectorOp::KeyRelease(k)],
        Event::MouseClick(b) => seq![InjectorOp::MouseClick(b)],
        Event::MousePress(b) => seq![InjectorOp::MousePress(b)],
        Event::MouseRelease(b) => seq![InjectorOp::MouseRelease(b)],
        Event::MouseMoveRel(x, y) => seq![InjectorOp::MouseMoveRel(x, y)],
        Event::MouseMoveAbs(x, y) => seq![InjectorOp::MouseMoveAbs(x, y)],
        Event::MouseScroll(x, y) => seq![InjectorOp::MouseScroll(x, y)],
        Event::Macro(events) => emitted_all(events@),
        Event::Condition(p, inner) => match states {
            Some((current, previous)) => if pred_holds(p, current, previous) {
                emitted(*inner, None)
            } else {
                Seq::empty()
            },
            None => Seq::empty(),
        },
        Event::Other(inner) => emitted(*inner, None),
        Event::NoOp => Seq::empty(),
    }
}

/// The commands a list of actions emits, in order; each element is
/// interpreted without a value pair.
pub open spec fn emitted_all(events: Seq<Event>) -> Seq<InjectorOp>
    decreases events,
{
    if events.len() == 0 {
        Seq::empty()
    } else {
        emitted_all(events.drop_last()) + emitted(events.last(), None)
    }
}

/// Interpret an action tree: the returned commands are exactly what the tree
/// emits for the given value pair, in order.
pub fn interpret(event: &Event, states: Option<(KeyState, KeyState)>) -> (ops: Vec<InjectorOp>)
    ensures
        ops@ == emitted(*event, states),
    decreases *event,
{
    match event {
        Event::KeyClick(k) => single_op(InjectorOp::KeyClick(*k)),
        Event::KeyPress(k) => single_op(InjectorOp::KeyPress(*k)),
        Event::KeyRelease(k) => single_op(InjectorOp::KeyRelease(*k)),
        Event::MouseClick(b) => single_op(InjectorOp::MouseClick(*b)),
        Event::MousePress(b) => single_op(InjectorOp::MousePress(*b)),
        Event::MouseRelease(b) => single_op(InjectorOp::MouseRelease(*b)),
        Event::MouseMoveRel(x, y) => single_op(InjectorOp::MouseMoveRel(*x, *y)),
        Event::MouseMoveAbs(x, y) => single_op(InjectorOp::MouseMoveAbs(*x, *y)),
        Event::MouseScroll(x, y) => single_op(InjectorOp::MouseScroll(*x, *y)),
        Event::Macro(events) => {
            let n = events.len();
            let mut ops: Vec<InjectorOp> = Vec::new();
            let mut i: usize = 0;
            while i < n
                invariant
                    n == events@.len(),
                    i <= n,
                    ops@ == emitted_all(events@.take(i as int)),
                    decreases_to!(*event => *events),
                decreases n - i,
            {
                proof {
                    assert(decreases_to!(*events => events@[i as int]));
                }
                let mut sub = interpret(&events[i], None);
                ops.append(&mut sub);
                proof {
                    assert(events@.take(i + 1 as int).drop_last() =~= events@.take(i as int));
                }
                i += 1;
            }
            proof {
                assert(events@.take(n as int) =~= events@);
            }
            ops
        },
        Event::Condition(p, inner) => match states {
            Some((current, previous)) => if eval_pred(*p, current, previous) {
                interpret(inner, None)
            } else {
                Vec::new()
            },
            None => Vec::new(),
        },
        Event::Other(inner) => interpret(inner, None),
        Event::NoOp => Vec::new(),
    }
}

/// A one-command vector.
fn single_op(op: InjectorOp) -> (ops: Vec<InjectorOp>)
    ensures
        ops@ == seq![op],
{
    let mut ops: Vec<InjectorOp> = Vec::new();
    ops.push(op);
    proof {
        assert(ops@ =~= seq![op]);
    }
    ops
}

/// Why the injector rejected a command; the code is whatever the injecting
/// layer assigns to the platform's failure.
#[derive(Clone, Copy, PartialEq, Eq, Structural, Debug)]
pub struct InjectError {
    pub code: u32,
}

/// The first failure among per-command injector outcomes.
pub open spec fn spec_first_failure(outcomes: Seq<Option<InjectError>>) -> Option<InjectError>
    decreases outcomes,
{
    if outcomes.len() == 0 {
        None
    } else if outcomes[0] is Some {
        outcomes[0]
    } else {
        spec_first_failure(outcomes.drop_first())
    }
}

/// The failure the caller of the interpreter observes: every command was
/// issued, and the first rejection is reported.
pub fn first_failure(outcomes: &Vec<Option<InjectError>>) -> (r: Option<InjectError>)
    ensures
        r == spec_first_failure(outcomes@),
{
    let n = outcomes.len();
    let mut i: usize = 0;
    proof {
        assert(outcomes@.skip(0) =~= outcomes@);
    }
    while i < n
        invariant
            n == outcomes@.len(),
            i <= n,
            forall|j: int| 0 <= j < i ==> outcomes@[j] is None,
            spec_first_failure(outcomes@) == spec_first_failure(outcomes@.skip(i as int)),
        decreases n - i,
    {
        if let Some(e) = outcomes[i] {
            proof {
                assert(outcomes@.skip(i as int)[0] == outcomes@[i as int]);
            }
            return Some(e);
        }
        proof {
            assert(outcomes@.skip(i as int).drop_first() =~= outcomes@.skip(i + 1 as int));
        }
        i += 1;
    }
    None
}

/// Every element of a sequence action contributes its commands, in position
/// order, whatever becomes of the injector calls of the elements before it:
/// emission never depends on injector outcomes, so a failing earlier step
/// still leaves the later steps' commands in place.
pub proof fn lemma_macro_emits_every_element(events: Seq<Event>, i: int)
    requires
        0 <= i < events.len(),
    ensures
        emitted_all(events) == emitted_all(events.take(i)) + emitted(events[i], None)
            + emitted_all(events.skip(i + 1)),
    decreases events.len(),
{
    if i == events.len() - 1 {
        assert(events.take(i) =~= events.drop_last());
        assert(events.skip(i + 1) =~= Seq::<Event>::empty());
        assert(emitted_all(events) == emitted_all(events.take(i)) + emitted(events[i], None)
            + emitted_all(events.skip(i + 1)));
    } else {
        lemma_macro_emits_every_element(events.drop_last(), i);
        assert(events.drop_last().take(i) =~= events.take(i));
        assert(events.drop_last()[i] == events[i]);
        assert(events.drop_last().skip(i + 1) =~= events.skip(i + 1).drop_last());
        lemma_emitted_all_snoc_split(events.skip(i + 1), events.last());
        assert(events.skip(i + 1).drop_last().push(events.last()) =~= events.skip(i + 1));
    }
}

/// Splitting off the last element of a non-empty list splits its emission.
proof fn lemma_emitted_all_snoc_split(events: Seq<Event>, last: Event)
    requires
        events.len() > 0,
        events.last() == last,
    ensures
        emitted_all(events) == emitted_all(events.drop_last()) + emitted(last, None),
{
}

/// A reported failure is a failure that actually occurred, and nothing failed
/// before it; no report means every command succeeded.
pub proof fn lemma_first_failure_is_first(outcomes: Seq<Option<InjectError>>)
    ensures
        spec_first_failure(outcomes) matches Some(e) ==> exists|i: int|
            0 <= i < outcomes.len() && outcomes[i] == Some(e) && forall|j: int|
                0 <= j < i ==> outcomes[j] is None,
        spec_first_failure(outcomes) is None ==> forall|i: int|
            0 <= i < outcomes.len() ==> outcomes[i] is None,
    decreases outcomes.len(),
{
    if outcomes.len() > 0 && outcomes[0] is None {
        let rest = outcomes.drop_first();
        lemma_first_failure_is_first(rest);
        let r = spec_first_failure(outcomes);
        if r is Some {
            let e = r->0;
            let i = choose|i: int|
                0 <= i < rest.len() && rest[i] == Some(e) && forall|j: int|
                    0 <= j < i ==> rest[j] is None;
            assert(outcomes[i + 1] == Some(e));
            assert forall|j: int| 0 <= j < i + 1 implies outcomes[j] is None by {
                if j >= 1 {
                    assert(outcomes[j] == rest[j - 1]);
                }
            }
        } else {
            assert forall|j: int| 0 <= j < outcomes.len() implies outcomes[j] is None by {
                if j >= 1 {
                    assert(outcomes[j] == rest[j - 1]);
                }
            }
        }
    }
}

} // verus!
