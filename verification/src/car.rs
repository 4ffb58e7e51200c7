//! Kinematic state of a participant's car and its per-tick integrator.
//!
//! A car accelerates and brakes along its heading from boolean control
//! inputs, with an asymmetric speed clamp (reverse is capped at half
//! the forward maximum), friction that decays speed toward zero, and
//! steering that only applies while moving. The heading is kept in
//! `[0, FX_TWO_PI)` by floored modulo after every tick.

use vstd::prelude::*;

use crate::fixed::FX_TWO_PI;
use crate::fixed::fx_abs;
use crate::fixed::fx_cos_spec;
use crate::fixed::fx_mul;
use crate::fixed::fx_sin_spec;
use crate::fixed::fx_cos;
use crate::fixed::fx_mod_two_pi;
use crate::fixed::fx_sin;
use crate::fixed::lemma_fx_mul_unit_bound;
use crate::fixed::mul_fx;
use crate::intersection::COORD_LIMIT;
use crate::intersection::Rectangle;
use crate::intersection::rects_intersect;

verus! {

/// Largest magnitude a kinematic tuning value (speed, acceleration,
/// maximum speed, friction, steering increment) may have.
pub const TUNE_LIMIT: i64 = 0x100_0000_0000;

/// Largest heading magnitude accepted before normalization.
pub const ANGLE_LIMIT: i64 = 0x4_0000_0000_0000;

/// Largest center coordinate magnitude for which a tick is accepted;
/// one tick moves the center by at most `TUNE_LIMIT`, so the result
/// stays well inside `COORD_LIMIT`.
pub const STEP_COORD_LIMIT: i64 = 0x80_0000_0000_0000;

/// Default acceleration per tick (0.2 in fixed point).
pub const DEFAULT_ACCELERATION: i64 = 13107;

/// Default forward speed cap (10 in fixed point).
pub const DEFAULT_MAX_SPEED: i64 = 655360;

/// Default friction per tick (0.05 in fixed point).
pub const DEFAULT_FRICTION: i64 = 3277;

/// Default steering increment per tick (0.03 in fixed point).
pub const DEFAULT_ANGLE_DELTA: i64 = 1966;

/// Kinematic tuning plus dynamic state, a plain copyable value.
#[derive(Debug, Clone, Copy, PartialEq, Eq, Structural)]
pub struct CarConfig {
    pub speed: i64,
    pub acceleration: i64,
    pub max_speed: i64,
    pub friction: i64,
    pub angle: i64,
    pub angle_delta: i64,
}

/// Four independent control inputs; forward and reverse may be held
/// together and then cancel additively.
#[derive(Debug, Clone, Copy, PartialEq, Eq, Structural)]
pub struct Control {
    pub forward: bool,
    pub reverse: bool,
    pub left: bool,
    pub right: bool,
}

/// One participant's rigid rectangular body: center position, fixed
/// extents, kinematic configuration and current control inputs.
#[derive(Debug, Clone, Copy, PartialEq, Eq, Structural)]
pub struct Car {
    pub x: i64,
    pub y: i64,
    pub width: i64,
    pub height: i64,
    pub config: CarConfig,
    pub control: Control,
}

/// A participant's self-reported state, decoded by the transport and
/// written into the registry entry as a mutation payload.
#[derive(Debug, Clone, Copy, PartialEq, Eq, Structural)]
pub struct CarView {
    pub x: i64,
    pub y: i64,
    pub height: i64,
    pub width: i64,
    pub config: CarConfig,
    pub left: bool,
    pub right: bool,
    pub forward: bool,
    pub reverse: bool,
}

/// A bare placement (center, extents, heading) to test a car against.
#[derive(Debug, Clone, Copy, PartialEq, Eq, Structural)]
pub struct CarPosition {
    pub x: i64,
    pub y: i64,
    pub width: i64,
    pub height: i64,
    pub angle: i64,
}

/// Tuning and dynamic values small enough that a tick cannot overflow.
pub open spec fn config_wf(c: CarConfig) -> bool {
    &&& 0 <= c.acceleration <= TUNE_LIMIT
    &&& 0 <= c.max_speed <= TUNE_LIMIT
    &&& 0 <= c.friction <= TUNE_LIMIT
    &&& 0 <= c.angle_delta <= TUNE_LIMIT
    &&& -TUNE_LIMIT <= c.speed <= TUNE_LIMIT
    &&& -ANGLE_LIMIT <= c.angle <= ANGLE_LIMIT
}

/// A car whose configuration is well-formed and whose position and
/// extents fit the geometry's coordinate range.
pub open spec fn car_wf(car: Car) -> bool {
    &&& config_wf(car.config)
    &&& -COORD_LIMIT <= car.x <= COORD_LIMIT
    &&& -COORD_LIMIT <= car.y <= COORD_LIMIT
    &&& -COORD_LIMIT <= car.width <= COORD_LIMIT
    &&& -COORD_LIMIT <= car.height <= COORD_LIMIT
}

/// A mutation payload within the same bounds as a car.
pub open spec fn car_view_wf(v: CarView) -> bool {
    &&& config_wf(v.config)
    &&& -COORD_LIMIT <= v.x <= COORD_LIMIT
    &&& -COORD_LIMIT <= v.y <= COORD_LIMIT
    &&& -COORD_LIMIT <= v.width <= COORD_LIMIT
    &&& -COORD_LIMIT <= v.height <= COORD_LIMIT
}

impl Default for CarConfig {
    /// The stock tuning: at rest, heading up.
    fn default() -> (c: CarConfig)
        ensures
            c == (CarConfig {
                speed: 0,
                acceleration: DEFAULT_ACCELERATION,
                max_speed: DEFAULT_MAX_SPEED,
                friction: DEFAULT_FRICTION,
                angle: 0,
                angle_delta: DEFAULT_ANGLE_DELTA,
            }),
            config_wf(c),
    {
        CarConfig {
            speed: 0,
            acceleration: DEFAULT_ACCELERATION,
            max_speed: DEFAULT_MAX_SPEED,
            friction: DEFAULT_FRICTION,
            angle: 0,
            angle_delta: DEFAULT_ANGLE_DELTA,
        }
    }
}

impl Default for Control {
    /// No input held.
    fn default() -> (c: Control)
        ensures
            c == (Control { forward: false, reverse: false, left: false, right: false }),
    {
        Control { forward: false, reverse: false, left: false, right: false }
    }
}

/// The speed after the control inputs are applied: forward adds the
/// acceleration, reverse subtracts it, both together cancel.
pub open spec fn speed_after_controls(speed: int, acceleration: int, ctl: Control) -> int {
    let s1 = if ctl.forward {
        speed + acceleration
    } else {
        speed
    };
    if ctl.reverse {
        s1 - acceleration
    } else {
        s1
    }
}

/// The speed clamped to the asymmetric range: at most `max` forward,
/// at most half of `max` in reverse.
pub open spec fn clamp_speed(s: int, max: int) -> int {
    let s1 = if s > max {
        max
    } else {
        s
    };
    if s1 < -(max / 2) {
        -(max / 2)
    } else {
        s1
    }
}

/// Friction applied toward zero, then a snap to zero when less than
/// one friction unit of speed remains, which removes residual
/// oscillation.
pub open spec fn apply_friction(s: int, friction: int) -> int {
    let s1 = if s > 0 {
        s - friction
    } else {
        s
    };
    let s2 = if s1 < 0 {
        s1 + friction
    } else {
        s1
    };
    if fx_abs(s2) < friction {
        0
    } else {
        s2
    }
}

/// One tick of speed: controls, clamp, friction.
pub open spec fn step_speed(speed: int, cfg: CarConfig, ctl: Control) -> int {
    apply_friction(
        clamp_speed(speed_after_controls(speed, cfg.acceleration as int, ctl), cfg.max_speed as int),
        cfg.friction as int,
    )
}

/// Steering: only while moving, and flipped while reversing so that
/// the same input curves the same visual direction either way.
pub open spec fn steer_angle(angle: int, delta: int, speed: int, ctl: Control) -> int {
    if speed != 0 {
        let signed_delta: int = if speed > 0 {
            delta
        } else {
            -delta
        };
        let a1 = if ctl.left {
            angle + signed_delta
        } else {
            angle
        };
        if ctl.right {
            a1 - signed_delta
        } else {
            a1
        }
    } else {
        angle
    }
}

/// One tick of heading: steering, then reduction to `[0, FX_TWO_PI)`.
pub open spec fn step_angle(angle: int, delta: int, speed: int, ctl: Control) -> int {
    steer_angle(angle, delta, speed, ctl) % (FX_TWO_PI as int)
}

/// The dynamic kinematic state of a car: what one tick changes.
pub ghost struct KinematicState {
    pub x: int,
    pub y: int,
    pub speed: int,
    pub angle: int,
}

/// The dynamic state carried by a car value.
pub open spec fn kinematic_state(car: Car) -> KinematicState {
    KinematicState {
        x: car.x as int,
        y: car.y as int,
        speed: car.config.speed as int,
        angle: car.config.angle as int,
    }
}

/// One full tick on the dynamic state under fixed tuning and control:
/// speed from controls, clamp and friction; heading from steering and
/// normalization; position integrated along the new heading, with
/// angle zero meaning "up" (negative y).
pub open spec fn step_state(st: KinematicState, cfg: CarConfig, ctl: Control) -> KinematicState {
    let speed = step_speed(st.speed, cfg, ctl);
    let angle = step_angle(st.angle, cfg.angle_delta as int, speed, ctl);
    KinematicState {
        x: st.x - fx_mul(fx_sin_spec(angle), speed),
        y: st.y - fx_mul(fx_cos_spec(angle), speed),
        speed,
        angle,
    }
}

/// `n` ticks on the dynamic state.
pub open spec fn step_state_n(st: KinematicState, cfg: CarConfig, ctl: Control, n: nat) -> KinematicState
    decreases n,
{
    if n == 0 {
        st
    } else {
        step_state(step_state_n(st, cfg, ctl, (n - 1) as nat), cfg, ctl)
    }
}

/// The collision hitbox derived from a car's current fields; the
/// heading is re-normalized at derivation time.
pub open spec fn car_hitbox(car: Car) -> Rectangle {
    Rectangle {
        x: car.x,
        y: car.y,
        width: car.width,
        height: car.height,
        angle: ((car.config.angle as int) % (FX_TWO_PI as int)) as i64,
    }
}

/// The hitbox a mutation payload describes.
pub open spec fn view_hitbox(v: CarView) -> Rectangle {
    Rectangle {
        x: v.x,
        y: v.y,
        width: v.width,
        height: v.height,
        angle: ((v.config.angle as int) % (FX_TWO_PI as int)) as i64,
    }
}

impl Car {
    /// A car at the given placement with stock tuning and no input.
    pub fn new(x: i64, y: i64, width: i64, height: i64) -> (car: Car)
        ensures
            car == (Car {
                x,
                y,
                width,
                height,
                config: CarConfig {
                    speed: 0,
                    acceleration: DEFAULT_ACCELERATION,
                    max_speed: DEFAULT_MAX_SPEED,
                    friction: DEFAULT_FRICTION,
                    angle: 0,
                    angle_delta: DEFAULT_ANGLE_DELTA,
                },
                control: Control { forward: false, reverse: false, left: false, right: false },
            }),
    {
        Car {
            x,
            y,
            width,
            height,
            config: CarConfig::default(),
            control: Control::default(),
        }
    }

    /// The same car with the given configuration.
    pub fn with_config(self, config: CarConfig) -> (car: Car)
        ensures
            car == (Car { config, ..self }),
    {
        Car { config, ..self }
    }

    /// The same car with stock tuning at the given heading.
    pub fn with_angle(self, angle: i64) -> (car: Car)
        ensures
            car == (Car {
                config: CarConfig {
                    speed: 0,
                    acceleration: DEFAULT_ACCELERATION,
                    max_speed: DEFAULT_MAX_SPEED,
                    friction: DEFAULT_FRICTION,
                    angle,
                    angle_delta: DEFAULT_ANGLE_DELTA,
                },
                ..self
            }),
    {
        let config = CarConfig { angle, ..CarConfig::default() };
        Car { config, ..self }
    }

    /// The collision hitbox of this car's current placement.
    pub fn hitbox(&self) -> (r: Rectangle)
        ensures
            r == car_hitbox(*self),
    {
        Rectangle {
            x: self.x,
            y: self.y,
            width: self.width,
            height: self.height,
            angle: fx_mod_two_pi(self.config.angle),
        }
    }

    /// Whether this car's hitbox overlaps another car's.
    pub fn collides(&self, car: &Car) -> (r: bool)
        requires
            car_wf(*self),
            car_wf(*car),
        ensures
            r == rects_intersect(car_hitbox(*self), car_hitbox(*car)),
    {
        let self_hitbox = Rectangle::from(self);
        let car_hitbox = Rectangle::from(car);
        self_hitbox.intersects(&car_hitbox)
    }

    /// Whether this car's hitbox overlaps the placement a mutation
    /// payload describes.
    pub fn collides_car_view(&self, car_view: &CarView) -> (r: bool)
        requires
            car_wf(*self),
            car_view_wf(*car_view),
        ensures
            r == rects_intersect(car_hitbox(*self), view_hitbox(*car_view)),
    {
        let self_hitbox = Rectangle::from(self);
        let car_hitbox = Rectangle::from(car_view);
        self_hitbox.intersects(&car_hitbox)
    }

    /// Whether this car's hitbox overlaps a bare placement; the
    /// placement's heading is used as given.
    pub fn collides_position(&self, car_position: &CarPosition) -> (r: bool)
        requires
            car_wf(*self),
            -COORD_LIMIT <= car_position.x <= COORD_LIMIT,
            -COORD_LIMIT <= car_position.y <= COORD_LIMIT,
            -COORD_LIMIT <= car_position.width <= COORD_LIMIT,
            -COORD_LIMIT <= car_position.height <= COORD_LIMIT,
        ensures
            r == rects_intersect(
                car_hitbox(*self),
                Rectangle {
                    x: car_position.x,
                    y: car_position.y,
                    width: car_position.width,
                    height: car_position.height,
                    angle: car_position.angle,
                },
            ),
    {
        let self_hitbox = self.hitbox();
        let car_hitbox = Rectangle::new(
            car_position.x,
            car_position.y,
            car_position.width,
            car_position.height,
            car_position.angle,
        );
        self_hitbox.intersects(&car_hitbox)
    }
}

impl Car {
    /// One simulation tick: apply control inputs to the speed, clamp
    /// it to the asymmetric range, decay it by friction, steer while
    /// moving, normalize the heading into `[0, FX_TWO_PI)`, and
    /// integrate the position along the new heading.
    #[verifier::rlimit(100)]
    pub fn update(&mut self)
        requires
            car_wf(*old(self)),
            -STEP_COORD_LIMIT <= old(self).x <= STEP_COORD_LIMIT,
            -STEP_COORD_LIMIT <= old(self).y <= STEP_COORD_LIMIT,
        ensures
            kinematic_state(*final(self)) == step_state(
                kinematic_state(*old(self)),
                old(self).config,
                old(self).control,
            ),
            final(self).width == old(self).width,
            final(self).height == old(self).height,
            final(self).control == old(self).control,
            final(self).config.acceleration == old(self).config.acceleration,
            final(self).config.max_speed == old(self).config.max_speed,
            final(self).config.friction == old(self).config.friction,
            final(self).config.angle_delta == old(self).config.angle_delta,
            -((old(self).config.max_speed as int) / 2) <= final(self).config.speed
                <= old(self).config.max_speed,
            0 <= final(self).config.angle < FX_TWO_PI,
            car_wf(*final(self)),
    {
        let ghost st0 = kinematic_state(*old(self));
        let ghost cfg = old(self).config;
        let ghost ctl = old(self).control;
        if self.control.forward {
            self.config.speed = self.config.speed + self.config.acceleration;
        }
        if self.control.reverse {
            self.config.speed = self.config.speed - self.config.acceleration;
        }
        proof {
            assert(self.config.speed as int == speed_after_controls(
                st0.speed,
                cfg.acceleration as int,
                ctl,
            ));
        }

        if self.config.speed > self.config.max_speed {
            self.config.speed = self.config.max_speed;
        }

        let reverse_cap = -(self.config.max_speed / 2);
        if self.config.speed < reverse_cap {
            self.config.speed = reverse_cap;
        }
        proof {
            assert(self.config.speed as int == clamp_speed(
                speed_after_controls(st0.speed, cfg.acceleration as int, ctl),
                cfg.max_speed as int,
            ));
        }

        if self.config.speed > 0 {
            self.config.speed = self.config.speed - self.config.friction;
        }

        if self.config.speed < 0 {
            self.config.speed = self.config.speed + self.config.friction;
        }

        let speed_magnitude = if self.config.speed >= 0 {
            self.config.speed
        } else {
            -self.config.speed
        };
        if speed_magnitude < self.config.friction {
            self.config.speed = 0;
        }

        proof {
            assert(self.config.speed as int == step_speed(st0.speed, cfg, ctl));
        }
        let ghost new_speed = step_speed(st0.speed, cfg, ctl);

        if self.config.speed != 0 {
            if self.config.speed > 0 {
                if self.control.left {
                    self.config.angle = self.config.angle + self.config.angle_delta;
                }
                if self.control.right {
                    self.config.angle = self.config.angle - self.config.angle_delta;
                }
            } else {
                if self.control.left {
                    self.config.angle = self.config.angle - self.config.angle_delta;
                }
                if self.control.right {
                    self.config.angle = self.config.angle + self.config.angle_delta;
                }
            }
        }
        proof {
            assert(self.config.angle as int == steer_angle(
                st0.angle,
                cfg.angle_delta as int,
                new_speed,
                ctl,
            ));
        }
        self.config.angle = fx_mod_two_pi(self.config.angle);
        proof {
            assert(self.config.angle as int == step_angle(
                st0.angle,
                cfg.angle_delta as int,
                new_speed,
                ctl,
            ));
        }
        let ghost new_angle = step_angle(st0.angle, cfg.angle_delta as int, new_speed, ctl);

        let s = fx_sin(self.config.angle);
        let c = fx_cos(self.config.angle);
        proof {
            crate::fixed::lemma_fx_mul_comm(s as int, self.config.speed as int);
            crate::fixed::lemma_fx_mul_comm(c as int, self.config.speed as int);
            lemma_fx_mul_unit_bound(self.config.speed as int, s as int);
            lemma_fx_mul_unit_bound(self.config.speed as int, c as int);
        }
        self.x = self.x - mul_fx(s, self.config.speed);
        self.y = self.y - mul_fx(c, self.config.speed);
        proof {
            let stepped = step_state(st0, cfg, ctl);
            assert(self.config.speed as int == stepped.speed);
            assert(self.config.angle as int == stepped.angle);
            assert(self.x as int == st0.x - fx_mul(fx_sin_spec(new_angle), new_speed));
            assert(self.x as int == stepped.x);
            assert(self.y as int == stepped.y);
        }
    }
}

proof fn lemma_step_speed_range(speed: int, cfg: CarConfig, ctl: Control)
    requires
        0 <= cfg.max_speed,
        0 <= cfg.friction,
    ensures
        -((cfg.max_speed as int) / 2) <= step_speed(speed, cfg, ctl) <= cfg.max_speed,
{
}

proof fn lemma_coast_step_progress(speed: int, cfg: CarConfig, ctl: Control)
    requires
        !ctl.forward,
        !ctl.reverse,
        0 < cfg.friction,
        0 <= cfg.max_speed,
    ensures
        speed >= 0 ==> 0 <= step_speed(speed, cfg, ctl) <= speed,
        speed <= 0 ==> speed <= step_speed(speed, cfg, ctl) <= 0,
        fx_abs(step_speed(speed, cfg, ctl)) <= if fx_abs(speed) >= cfg.friction {
            fx_abs(speed) - cfg.friction
        } else {
            0
        },
{
}

/// The clamp invariant: after any positive number of ticks the speed
/// lies in the asymmetric range, at most the forward cap and at least
/// half of it in reverse.
pub proof fn lemma_speed_stays_clamped(st: KinematicState, cfg: CarConfig, ctl: Control, n: nat)
    requires
        0 <= cfg.max_speed,
        0 <= cfg.friction,
        n >= 1,
    ensures
        -((cfg.max_speed as int) / 2) <= step_state_n(st, cfg, ctl, n).speed <= cfg.max_speed,
    decreases n,
{
    let prev = step_state_n(st, cfg, ctl, (n - 1) as nat);
    lemma_step_speed_range(prev.speed, cfg, ctl);
}

/// The normalization invariant: after any positive number of ticks
/// the heading lies in `[0, FX_TWO_PI)`.
pub proof fn lemma_angle_stays_normalized(st: KinematicState, cfg: CarConfig, ctl: Control, n: nat)
    requires
        n >= 1,
    ensures
        0 <= step_state_n(st, cfg, ctl, n).angle < FX_TWO_PI,
{
    let prev = step_state_n(st, cfg, ctl, (n - 1) as nat);
    let speed = step_speed(prev.speed, cfg, ctl);
    vstd::arithmetic::div_mod::lemma_mod_bound(
        steer_angle(prev.angle, cfg.angle_delta as int, speed, ctl),
        FX_TWO_PI as int,
    );
}

proof fn lemma_coast_abs_bound(st: KinematicState, cfg: CarConfig, ctl: Control, n: nat)
    requires
        !ctl.forward,
        !ctl.reverse,
        0 < cfg.friction,
        0 <= cfg.max_speed,
    ensures
        fx_abs(step_state_n(st, cfg, ctl, n).speed) <= if fx_abs(st.speed) - n * cfg.friction
            >= 0 {
            fx_abs(st.speed) - n * cfg.friction
        } else {
            0
        },
    decreases n,
{
    if n == 0 {
    } else {
        lemma_coast_abs_bound(st, cfg, ctl, (n - 1) as nat);
        let prev = step_state_n(st, cfg, ctl, (n - 1) as nat);
        lemma_coast_step_progress(prev.speed, cfg, ctl);
        assert(n * cfg.friction == (n - 1) * cfg.friction + cfg.friction) by (nonlinear_arith);
    }
}

/// Friction convergence: with no control input held, the speed is
/// exactly zero after any `n` ticks with `n * friction >= |speed|` —
/// that is, within the ceiling of `|speed| / friction` ticks.
pub proof fn lemma_friction_convergence(st: KinematicState, cfg: CarConfig, ctl: Control, n: nat)
    requires
        !ctl.forward,
        !ctl.reverse,
        !ctl.left,
        !ctl.right,
        0 < cfg.friction,
        0 <= cfg.max_speed,
        n * cfg.friction >= fx_abs(st.speed),
    ensures
        step_state_n(st, cfg, ctl, n).speed == 0,
{
    lemma_coast_abs_bound(st, cfg, ctl, n);
}

/// Friction never makes the speed oscillate in sign: with no control
/// input held, after any number of ticks the speed still lies between
/// zero and its initial value.
pub proof fn lemma_friction_no_sign_flip(st: KinematicState, cfg: CarConfig, ctl: Control, n: nat)
    requires
        !ctl.forward,
        !ctl.reverse,
        !ctl.left,
        !ctl.right,
        0 < cfg.friction,
        0 <= cfg.max_speed,
    ensures
        st.speed >= 0 ==> 0 <= step_state_n(st, cfg, ctl, n).speed <= st.speed,
        st.speed <= 0 ==> st.speed <= step_state_n(st, cfg, ctl, n).speed <= 0,
    decreases n,
{
    if n == 0 {
    } else {
        lemma_friction_no_sign_flip(st, cfg, ctl, (n - 1) as nat);
        let prev = step_state_n(st, cfg, ctl, (n - 1) as nat);
        lemma_coast_step_progress(prev.speed, cfg, ctl);
    }
}

impl CarConfig {
    /// A configuration from its raw parts.
    pub fn new(
        speed: i64,
        acceleration: i64,
        max_speed: i64,
        friction: i64,
        angle: i64,
        angle_delta: i64,
    ) -> (c: CarConfig)
        ensures
            c == (CarConfig { speed, acceleration, max_speed, friction, angle, angle_delta }),
    {
        CarConfig { speed, acceleration, max_speed, friction, angle, angle_delta }
    }
}

impl CarView {
    /// A mutation payload from its raw parts.
    pub fn new(
        x: i64,
        y: i64,
        width: i64,
        height: i64,
        config: CarConfig,
        left: bool,
        right: bool,
        forward: bool,
        reverse: bool,
    ) -> (v: CarView)
        ensures
            v == (CarView { x, y, width, height, config, left, right, forward, reverse }),
    {
        CarView { x, y, width, height, config, left, right, forward, reverse }
    }
}

impl CarPosition {
    /// A placement from its raw parts.
    pub fn new(x: i64, y: i64, width: i64, height: i64, angle: i64) -> (p: CarPosition)
        ensures
            p == (CarPosition { x, y, width, height, angle }),
    {
        CarPosition { x, y, width, height, angle }
    }
}

impl Car {
    /// Whether the forward input is held.
    pub fn get_forward(&self) -> (b: bool)
        ensures
            b == self.control.forward,
    {
        self.control.forward
    }

    /// Whether the left input is held.
    pub fn get_left(&self) -> (b: bool)
        ensures
            b == self.control.left,
    {
        self.control.left
    }

    /// Whether the right input is held.
    pub fn get_right(&self) -> (b: bool)
        ensures
            b == self.control.right,
    {
        self.control.right
    }

    /// Whether the reverse input is held.
    pub fn get_reverse(&self) -> (b: bool)
        ensures
            b == self.control.reverse,
    {
        self.control.reverse
    }

    /// Hold or release the forward input.
    pub fn set_forward(&mut self, forward: bool)
        ensures
            *final(self) == (Car {
                control: Control { forward, ..old(self).control },
                ..*old(self)
            }),
    {
        self.control.forward = forward;
    }

    /// Hold or release the left input.
    pub fn set_left(&mut self, left: bool)
        ensures
            *final(self) == (Car { control: Control { left, ..old(self).control }, ..*old(self) }),
    {
        self.control.left = left;
    }

    /// Hold or release the right input.
    pub fn set_right(&mut self, right: bool)
        ensures
            *final(self) == (Car { control: Control { right, ..old(self).control }, ..*old(self) }),
    {
        self.control.right = right;
    }

    /// Hold or release the reverse input.
    pub fn set_reverse(&mut self, reverse: bool)
        ensures
            *final(self) == (Car {
                control: Control { reverse, ..old(self).control },
                ..*old(self)
            }),
    {
        self.control.reverse = reverse;
    }
}

impl Control {
    /// Whether the forward input is held.
    pub fn get_forward(&self) -> (b: bool)
        ensures
            b == self.forward,
    {
        self.forward
    }

    /// Whether the left input is held.
    pub fn get_left(&self) -> (b: bool)
        ensures
            b == self.left,
    {
        self.left
    }

    /// Whether the right input is held.
    pub fn get_right(&self) -> (b: bool)
        ensures
            b == self.right,
    {
        self.right
    }

    /// Whether the reverse input is held.
    pub fn get_reverse(&self) -> (b: bool)
        ensures
            b == self.reverse,
    {
        self.reverse
    }
}

/// The car a mutation payload describes outright: its position,
/// extents, configuration and control flags taken as reported.
pub open spec fn car_of_view(car_view: CarView) -> Car {
    Car {
        x: car_view.x,
        y: car_view.y,
        width: car_view.width,
        height: car_view.height,
        config: car_view.config,
        control: Control {
            forward: car_view.forward,
            reverse: car_view.reverse,
            left: car_view.left,
            right: car_view.right,
        },
    }
}

impl From<CarView> for Car {
    /// The car a mutation payload describes outright.
    fn from(car_view: CarView) -> (car: Car)
        ensures
            car == car_of_view(car_view),
    {
        Car {
            x: car_view.x,
            y: car_view.y,
            config: car_view.config,
            height: car_view.height,
            width: car_view.width,
            control: Control {
                forward: car_view.forward,
                reverse: car_view.reverse,
                left: car_view.left,
                right: car_view.right,
            },
        }
    }
}

impl vstd::std_specs::convert::FromSpecImpl<CarView> for Car {
    open spec fn obeys_from_spec() -> bool {
        true
    }

    open spec fn from_spec(v: CarView) -> Car {
        car_of_view(v)
    }
}

impl From<&Car> for Rectangle {
    /// The collision hitbox derived from a car's current fields; the
    /// heading is re-normalized at derivation time.
    fn from(car: &Car) -> (r: Rectangle)
        ensures
            r == car_hitbox(*car),
    {
        car.hitbox()
    }
}

impl vstd::std_specs::convert::FromSpecImpl<&Car> for Rectangle {
    open spec fn obeys_from_spec() -> bool {
        true
    }

    open spec fn from_spec(car: &Car) -> Rectangle {
        car_hitbox(*car)
    }
}

impl From<&CarView> for Rectangle {
    /// The hitbox of the placement a mutation payload describes; the
    /// heading is re-normalized at derivation time.
    fn from(car_view: &CarView) -> (r: Rectangle)
        ensures
            r == view_hitbox(*car_view),
    {
        Rectangle {
            x: car_view.x,
            y: car_view.y,
            width: car_view.width,
            height: car_view.height,
            angle: fx_mod_two_pi(car_view.config.angle),
        }
    }
}

impl vstd::std_specs::convert::FromSpecImpl<&CarView> for Rectangle {
    open spec fn obeys_from_spec() -> bool {
        true
    }

    open spec fn from_spec(car_view: &CarView) -> Rectangle {
        view_hitbox(*car_view)
    }
}

} // verus!
