//! The analog-stick-to-cursor velocity integrator.
//!
//! Independently of dispatch, each tick converts the latest stick samples
//! into a smoothed, accelerated, clamped pointer delta.  Per axis the filter
//! snaps to fresh input, approaches a held deflection exponentially, and
//! decays exponentially toward zero inside the deadzone; the combined delta
//! is scaled by an acceleration factor, clamped to the maximum speed, and the
//! vertical axis is inverted to match screen coordinates.

use vstd::prelude::*;

use vstd::arithmetic::div_mod::{lemma_div_is_ordered, lemma_div_pos_is_pos};

use crate::fixed::{fx_abs, fx_clamp, fx_round_units, fx_scale_mul, lemma_round_units_in_range,
    lemma_scale_mul_shrinks, lemma_scale_mul_sign, spec_abs, spec_clamp, spec_max,
    spec_round_units, spec_scale_mul, Fx, SCALE};

verus! {

/// The integrator's fixed configuration, in fixed-point units.
#[derive(Clone, Copy, PartialEq, Eq, Structural, Debug)]
pub struct VelocityConfig {
    /// Base cursor speed: whole units of pointer movement per tick at full
    /// deflection, before acceleration.
    pub base_speed: Fx,
    /// How strongly speed grows with deflection, and how fast the per-axis
    /// filter converges.
    pub acceleration_factor: Fx,
    /// Deflections of at most this magnitude count as no input.
    pub deadzone: Fx,
    /// Upper bound on the per-tick pointer delta, per axis.
    pub max_speed: Fx,
    /// Sample changes above this magnitude count as fresh input and re-track
    /// instantly.
    pub noise_threshold: Fx,
    /// Deltas of at most this magnitude, on both axes, emit no move at all.
    pub epsilon: Fx,
}

impl VelocityConfig {
    /// The bounds under which every intermediate product of the integrator
    /// fits in a 64-bit value.
    pub open spec fn wf(&self) -> bool {
        &&& 0 <= self.base_speed <= 1_000_000_000
        &&& 0 <= self.acceleration_factor <= 1_000_000_000
        &&& 0 <= self.deadzone <= SCALE
        &&& 0 <= self.max_speed <= 2_000_000_000_000
        &&& 0 <= self.noise_threshold
        &&& 0 <= self.epsilon
    }
}

impl Default for VelocityConfig {
    /// The stock tuning: base speed 3 units, acceleration factor 0.1,
    /// deadzone 0.1, maximum speed 10 units, noise threshold 0.001,
    /// emission threshold 0.01.
    fn default() -> (r: VelocityConfig)
        ensures
            r.wf(),
            r.base_speed == 3 * SCALE,
            r.acceleration_factor == SCALE / 10,
            r.deadzone == SCALE / 10,
            r.max_speed == 10 * SCALE,
            r.noise_threshold == SCALE / 1000,
            r.epsilon == SCALE / 100,
    {
        VelocityConfig {
            base_speed: 3 * SCALE,
            acceleration_factor: SCALE / 10,
            deadzone: SCALE / 10,
            max_speed: 10 * SCALE,
            noise_threshold: SCALE / 1000,
            epsilon: SCALE / 100,
        }
    }
}

/// One axis's filter state, persisting across ticks.
#[derive(Clone, Copy, PartialEq, Eq, Structural, Debug)]
pub struct VelocityState {
    /// The smoothed velocity, always in `[-SCALE, SCALE]`.
    pub velocity: Fx,
    /// The sample seen on the previous tick.
    pub last_raw: Fx,
}

/// The per-tick filter, on mathematical integers: snap to fresh input,
/// approach a held deflection, or decay inside the deadzone; always clamped
/// to `[-SCALE, SCALE]`.
pub open spec fn step_velocity(vel: int, last_raw: int, raw: int, rate: int, cfg: VelocityConfig)
    -> int {
    let delta = raw - last_raw;
    let moved = if spec_abs(delta) > cfg.noise_threshold {
        raw
    } else if spec_abs(raw) > cfg.deadzone {
        vel + spec_scale_mul(raw - vel, rate)
    } else {
        spec_scale_mul(vel, SCALE - 2 * rate)
    };
    spec_clamp(moved, -SCALE as int, SCALE as int)
}

/// The per-tick convergence rate: the acceleration factor scaled by the tick
/// duration, held below one half so decay can never cross zero.
pub open spec fn spec_rate(accel: int, dt: int) -> int {
    let r = accel * dt / SCALE as int;
    if r > SCALE as int / 2 {
        SCALE as int / 2
    } else {
        r
    }
}

impl VelocityState {
    /// Both fields sit in the unit range.
    pub open spec fn wf(&self) -> bool {
        &&& -SCALE <= self.velocity <= SCALE
        &&& -SCALE <= self.last_raw <= SCALE
    }

    /// A resting axis.
    pub fn new() -> (r: VelocityState)
        ensures
            r.wf(),
            r.velocity == 0,
            r.last_raw == 0,
    {
        VelocityState { velocity: 0, last_raw: 0 }
    }

    /// Advance one tick on this axis, given the latest sample.
    pub fn step(&mut self, raw: Fx, rate: Fx, cfg: VelocityConfig)
        requires
            old(self).wf(),
            -SCALE <= raw <= SCALE,
            0 <= rate && 2 * rate <= SCALE,
        ensures
            final(self).wf(),
            final(self).velocity == step_velocity(
                old(self).velocity as int,
                old(self).last_raw as int,
                raw as int,
                rate as int,
                cfg,
            ),
            final(self).last_raw == raw,
    {
        let delta = raw - self.last_raw;
        let moved = if fx_abs(delta) > cfg.noise_threshold {
            raw
        } else if fx_abs(raw) > cfg.deadzone {
            proof {
                let a = spec_abs((raw - self.velocity) as int);
                assert(a * rate <= 2_000_000_000_000) by (nonlinear_arith)
                    requires
                        0 <= a <= 2_000_000,
                        0 <= rate <= 500_000,
                ;
            }
            let gain = fx_scale_mul(raw - self.velocity, rate);
            proof {
                lemma_div_is_ordered(
                    spec_abs((raw - self.velocity) as int) * rate,
                    2_000_000_000_000,
                    SCALE as int,
                );
                lemma_div_pos_is_pos(spec_abs((raw - self.velocity) as int) * rate, SCALE as int);
            }
            self.velocity + gain
        } else {
            fx_scale_mul(self.velocity, SCALE - 2 * rate)
        };
        self.velocity = fx_clamp(moved, -SCALE, SCALE);
        self.last_raw = raw;
    }
}

/// The scaling applied to both axes' velocities: the base speed, boosted by
/// the larger deflection and the acceleration factor.
pub open spec fn speed_factor(vx: int, vy: int, cfg: VelocityConfig) -> int {
    let boost = spec_max(spec_abs(vx), spec_abs(vy)) * cfg.acceleration_factor / SCALE as int;
    cfg.base_speed * (SCALE as int + boost) / SCALE as int
}

/// The pointer command one tick emits: per axis the velocity scaled by the
/// speed factor and clamped to the maximum speed, the vertical axis
/// inverted; nothing at all while both deltas sit within the emission
/// threshold, else both deltas rounded to whole units.
pub open spec fn cursor_delta_spec(vx: int, vy: int, cfg: VelocityConfig) -> Option<(int, int)> {
    let sf = speed_factor(vx, vy, cfg);
    let dx = spec_clamp(spec_scale_mul(vx, sf), -cfg.max_speed as int, cfg.max_speed as int);
    let dy = -spec_clamp(spec_scale_mul(vy, sf), -cfg.max_speed as int, cfg.max_speed as int);
    if spec_abs(dx) <= cfg.epsilon && spec_abs(dy) <= cfg.epsilon {
        None
    } else {
        Some((spec_round_units(dx), spec_round_units(dy)))
    }
}

/// Both axes' filter states together with the tuning they run under.
pub struct VelocityIntegrator {
    /// Horizontal axis state.
    pub x: VelocityState,
    /// Vertical axis state.
    pub y: VelocityState,
    /// The tuning, fixed for the run.
    pub config: VelocityConfig,
}

impl VelocityIntegrator {
    /// Both axes in range under a workable configuration.
    pub open spec fn wf(&self) -> bool {
        self.x.wf() && self.y.wf() && self.config.wf()
    }

    /// A resting integrator under the given tuning.
    pub fn new(config: VelocityConfig) -> (r: VelocityIntegrator)
        requires
            config.wf(),
        ensures
            r.wf(),
            r.x == (VelocityState { velocity: 0, last_raw: 0 }),
            r.y == (VelocityState { velocity: 0, last_raw: 0 }),
            r.config == config,
    {
        VelocityIntegrator { x: VelocityState::new(), y: VelocityState::new(), config }
    }

    /// Advance both axes one tick, given the latest samples and the tick
    /// duration (in fixed-point seconds).
    pub fn calculate_velocity(&mut self, raw_x: Fx, raw_y: Fx, dt: Fx)
        requires
            old(self).wf(),
            -SCALE <= raw_x <= SCALE,
            -SCALE <= raw_y <= SCALE,
            0 <= dt <= 10_000_000,
        ensures
            final(self).wf(),
            final(self).config == old(self).config,
            final(self).x.velocity == step_velocity(
                old(self).x.velocity as int,
                old(self).x.last_raw as int,
                raw_x as int,
                spec_rate(old(self).config.acceleration_factor as int, dt as int),
                old(self).config,
            ),
            final(self).x.last_raw == raw_x,
            final(self).y.velocity == step_velocity(
                old(self).y.velocity as int,
                old(self).y.last_raw as int,
                raw_y as int,
                spec_rate(old(self).config.acceleration_factor as int, dt as int),
                old(self).config,
            ),
            final(self).y.last_raw == raw_y,
    {
        proof {
            assert(self.config.acceleration_factor * dt <= 10_000_000_000_000_000)
                by (nonlinear_arith)
                requires
                    0 <= self.config.acceleration_factor <= 1_000_000_000,
                    0 <= dt <= 10_000_000,
            ;
            assert(self.config.acceleration_factor * dt >= 0) by (nonlinear_arith)
                requires
                    self.config.acceleration_factor >= 0,
                    dt >= 0,
            ;
        }
        let prod = self.config.acceleration_factor * dt;
        proof {
            lemma_div_pos_is_pos(prod as int, SCALE as int);
        }
        let r = prod / SCALE;
        let rate = if r > SCALE / 2 {
            SCALE / 2
        } else {
            r
        };
        let cfg = self.config;
        self.x.step(raw_x, rate, cfg);
        self.y.step(raw_y, rate, cfg);
    }

    /// The pointer delta this tick emits, in whole units per axis, if it
    /// emits one.
    pub fn cursor_delta(&self) -> (r: Option<(i32, i32)>)
        requires
            self.wf(),
        ensures
            (r is Some) == (cursor_delta_spec(
                self.x.velocity as int,
                self.y.velocity as int,
                self.config,
            ) is Some),
            r matches Some(p) ==> cursor_delta_spec(
                self.x.velocity as int,
                self.y.velocity as int,
                self.config,
            ) matches Some(q) && p.0 == q.0 && p.1 == q.1,
    {
        let vx = self.x.velocity;
        let vy = self.y.velocity;
        let ax = fx_abs(vx);
        let ay = fx_abs(vy);
        let m = if ax >= ay {
            ax
        } else {
            ay
        };
        proof {
            assert(m * self.config.acceleration_factor <= 1_000_000_000_000_000)
                by (nonlinear_arith)
                requires
                    0 <= m <= 1_000_000,
                    0 <= self.config.acceleration_factor <= 1_000_000_000,
            ;
        }
        let boost = fx_scale_mul(m, self.config.acceleration_factor);
        proof {
            lemma_div_is_ordered(
                m as int * self.config.acceleration_factor,
                1_000_000_000_000_000,
                SCALE as int,
            );
            lemma_div_pos_is_pos(m as int * self.config.acceleration_factor, SCALE as int);
            assert(self.config.base_speed * (SCALE + boost) <= 2_000_000_000_000_000_000)
                by (nonlinear_arith)
                requires
                    0 <= self.config.base_speed <= 1_000_000_000,
                    0 <= SCALE + boost <= 1_001_000_000,
            ;
            assert(self.config.base_speed * (SCALE + boost) >= 0) by (nonlinear_arith)
                requires
                    self.config.base_speed >= 0,
                    SCALE + boost >= 0,
            ;
        }
        let scaled = self.config.base_speed * (SCALE + boost);
        proof {
            lemma_div_is_ordered(scaled as int, 2_000_000_000_000_000_000, SCALE as int);
            lemma_div_pos_is_pos(scaled as int, SCALE as int);
        }
        let sf = scaled / SCALE;
        let max = self.config.max_speed;
        let dx = fx_clamp(fx_scale_mul(vx, sf), -max, max);
        let dy = -fx_clamp(fx_scale_mul(vy, sf), -max, max);
        if fx_abs(dx) <= self.config.epsilon && fx_abs(dy) <= self.config.epsilon {
            None
        } else {
            let px = fx_round_units(dx);
            let py = fx_round_units(dy);
            proof {
                lemma_round_units_small(dx as int);
                lemma_round_units_small(dy as int);
            }
            Some((px as i32, py as i32))
        }
    }
}

/// A fresh sample — one whose jump from the previous sample exceeds the
/// noise threshold — re-tracks instantly: the new velocity is the sample
/// itself.
pub proof fn lemma_snap_on_fresh_input(
    vel: int,
    last_raw: int,
    raw: int,
    rate: int,
    cfg: VelocityConfig,
)
    requires
        -SCALE <= raw <= SCALE,
        spec_abs(raw - last_raw) > cfg.noise_threshold,
    ensures
        step_velocity(vel, last_raw, raw, rate, cfg) == raw,
{
}

/// A centered sample never makes the velocity overshoot zero: the magnitude
/// never grows, the sign never flips, and — at any positive rate — a nonzero
/// velocity strictly shrinks, so repeated centered samples reach exactly
/// zero within `|velocity|` ticks.
pub proof fn lemma_centered_sample_converges(
    vel: int,
    last_raw: int,
    rate: int,
    cfg: VelocityConfig,
)
    requires
        -SCALE <= vel <= SCALE,
        0 < rate,
        2 * rate <= SCALE,
        cfg.noise_threshold >= 0,
        cfg.deadzone >= 0,
    ensures
        vel >= 0 ==> 0 <= step_velocity(vel, last_raw, 0, rate, cfg) <= vel,
        vel <= 0 ==> vel <= step_velocity(vel, last_raw, 0, rate, cfg) <= 0,
        vel != 0 ==> spec_abs(step_velocity(vel, last_raw, 0, rate, cfg)) < spec_abs(vel),
{
    if spec_abs(0 - last_raw) > cfg.noise_threshold {
    } else {
        lemma_scale_mul_shrinks(vel, SCALE as int - 2 * rate);
    }
}

/// In the approach regime — a steady sample outside the deadzone — the
/// velocity moves toward the sample and never passes it.  In particular a
/// stick held at full deflection drives the velocity upward but never above
/// the deflection itself.
pub proof fn lemma_approach_no_overshoot(
    vel: int,
    last_raw: int,
    raw: int,
    rate: int,
    cfg: VelocityConfig,
)
    requires
        -SCALE <= vel <= SCALE,
        -SCALE <= raw <= SCALE,
        0 <= rate,
        2 * rate <= SCALE,
        spec_abs(raw - last_raw) <= cfg.noise_threshold,
        spec_abs(raw) > cfg.deadzone,
    ensures
        vel <= raw ==> vel <= step_velocity(vel, last_raw, raw, rate, cfg) <= raw,
        raw <= vel ==> raw <= step_velocity(vel, last_raw, raw, rate, cfg) <= vel,
{
    lemma_scale_mul_sign(raw - vel, rate);
}

/// The axis state after a run of `n` centered samples, starting from a given
/// velocity and previous sample: velocity first, previous sample second.
pub open spec fn centered_steps(
    vel: int,
    last_raw: int,
    rate: int,
    cfg: VelocityConfig,
    n: nat,
) -> (int, int)
    decreases n,
{
    if n == 0 {
        (vel, last_raw)
    } else {
        let s = centered_steps(vel, last_raw, rate, cfg, (n - 1) as nat);
        (step_velocity(s.0, s.1, 0, rate, cfg), 0)
    }
}

/// Feeding the filter centered samples drives the velocity to zero within a
/// bounded number of ticks, monotonically: after `n` ticks the magnitude has
/// shrunk by at least `n`, so at most `|velocity|` ticks reach exactly zero,
/// and the sign never flips on the way.
pub proof fn lemma_centered_run_converges(
    vel: int,
    last_raw: int,
    rate: int,
    cfg: VelocityConfig,
    n: nat,
)
    requires
        -SCALE <= vel <= SCALE,
        -SCALE <= last_raw <= SCALE,
        0 < rate,
        2 * rate <= SCALE,
        cfg.noise_threshold >= 0,
        cfg.deadzone >= 0,
    ensures
        spec_abs(centered_steps(vel, last_raw, rate, cfg, n).0) <= spec_max(spec_abs(vel) - n, 0),
        vel >= 0 ==> 0 <= centered_steps(vel, last_raw, rate, cfg, n).0 <= vel,
        vel <= 0 ==> vel <= centered_steps(vel, last_raw, rate, cfg, n).0 <= 0,
    decreases n,
{
    if n > 0 {
        lemma_centered_run_converges(vel, last_raw, rate, cfg, (n - 1) as nat);
        let s = centered_steps(vel, last_raw, rate, cfg, (n - 1) as nat);
        lemma_centered_sample_converges(s.0, s.1, rate, cfg);
    }
}

/// Whatever the velocities and the tuning, an emitted pointer delta respects
/// the speed clamp on both axes, and the vertical delta never shares a sign
/// with the vertical velocity.
pub proof fn lemma_cursor_delta_clamped(vx: int, vy: int, cfg: VelocityConfig)
    requires
        -SCALE <= vx <= SCALE,
        -SCALE <= vy <= SCALE,
        cfg.wf(),
    ensures
        cursor_delta_spec(vx, vy, cfg) matches Some(p) ==> {
            &&& -spec_round_units(cfg.max_speed as int) <= p.0 <= spec_round_units(
                cfg.max_speed as int,
            )
            &&& -spec_round_units(cfg.max_speed as int) <= p.1 <= spec_round_units(
                cfg.max_speed as int,
            )
            &&& vy > 0 ==> p.1 <= 0
            &&& vy < 0 ==> p.1 >= 0
        },
{
    let sf = speed_factor(vx, vy, cfg);
    lemma_speed_factor_nonneg(vx, vy, cfg);
    lemma_scale_mul_sign(vy, sf);
    let max = cfg.max_speed as int;
    let dx = spec_clamp(spec_scale_mul(vx, sf), -max, max);
    let dyc = spec_clamp(spec_scale_mul(vy, sf), -max, max);
    lemma_round_units_in_range(dx, max);
    lemma_round_units_in_range(-dyc, max);
}

/// The speed factor is never negative.
proof fn lemma_speed_factor_nonneg(vx: int, vy: int, cfg: VelocityConfig)
    requires
        cfg.wf(),
    ensures
        speed_factor(vx, vy, cfg) >= 0,
{
    let s = SCALE as int;
    let m = spec_max(spec_abs(vx), spec_abs(vy));
    assert(m * cfg.acceleration_factor >= 0) by (nonlinear_arith)
        requires
            m >= 0,
            cfg.acceleration_factor >= 0,
    ;
    lemma_div_pos_is_pos(m * cfg.acceleration_factor, s);
    let boost = m * cfg.acceleration_factor / s;
    assert(cfg.base_speed * (s + boost) >= 0) by (nonlinear_arith)
        requires
            cfg.base_speed >= 0,
            s + boost >= 0,
    ;
    lemma_div_pos_is_pos(cfg.base_speed * (s + boost), s);
}

/// A fixed-point value within the configuration limits rounds to a unit
/// count far inside the 32-bit range.
proof fn lemma_round_units_small(a: int)
    requires
        -2_000_000_000_000 <= a <= 2_000_000_000_000,
    ensures
        -2_000_001 <= spec_round_units(a) <= 2_000_001,
{
    if a >= 0 {
        lemma_div_is_ordered(a + SCALE as int / 2, 2_000_000_500_000, SCALE as int);
        lemma_div_pos_is_pos(a + SCALE as int / 2, SCALE as int);
    } else {
        lemma_div_is_ordered(-a + SCALE as int / 2, 2_000_000_500_000, SCALE as int);
        lemma_div_pos_is_pos(-a + SCALE as int / 2, SCALE as int);
    }
}

} // verus!
