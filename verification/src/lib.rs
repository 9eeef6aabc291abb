//! Maps physical game-controller input (buttons, triggers, analog sticks) to
//! synthesized keyboard / mouse actions.
//!
//! The crate holds the verified core: the double-buffered input-state tracker,
//! the edge-triggered dispatch engine with its composable action trees, and the
//! analog-stick-to-cursor velocity integrator.  Analog samples are carried as
//! fixed-point integers (micro-units), so every computation here is exact
//! integer arithmetic.  Device polling and the actual key / mouse injection are
//! capability layers outside this crate: the engine consumes plain event values
//! and emits plain injector commands.

pub mod assoc;
pub mod binder;
pub mod controller;
pub mod event;
pub mod fixed;
pub mod velocity;
