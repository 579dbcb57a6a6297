//! The engine at the root of the drivetrain, and the container that ties it to
//! the tree it drives.
use vstd::prelude::*;
use crate::curve::{curve_wf, sample_spec, sample_curve, lemma_sample_nonneg};
use crate::wheels::lemma_wheel_never_slows;
use crate::differential::Differential;
use crate::fixed::{SCALE, in_range, quot, min, max, sum, product, fx_min, fx_max, fx_add, fx_mul};

verus! {

/// Factor of the upper bound on friction torque, `rpm * inertia * 2000`.
pub const FRICTION_CAP_FACTOR: i64 = 2_000_000_000;

/// A combustion engine: a torque curve and a friction model. All quantities
/// are fixed-point millionths.
#[derive(Debug, Clone)]
pub struct CombustionEngine {
    /// Samples `(rpm, torque)` of the available torque, ascending in rpm
    pub torque_curve: Vec<(i64, i64)>,
    pub idle_rpm: i64,
    pub max_rpm: i64,
    /// Engine speed, driven from outside
    pub current_rpm: i64,
    /// Engine inertia
    pub inertia: i64,
    /// Friction that is always applied, regardless of spinning speed
    pub static_friction: i64,
    /// Friction that goes up depending on RPM
    pub variable_friction: i64,
    /// Multiplier for variable friction
    pub variable_friction_mult: i64,
}

/// Throttle input limited to `[0, 1]`.
pub open spec fn throttle_clamped(throttle_input: int) -> int {
    min(max(throttle_input, 0), SCALE as int)
}

impl CombustionEngine {
    pub open spec fn wf(&self) -> bool {
        &&& curve_wf(self.torque_curve@)
        &&& in_range(self.idle_rpm as int)
        &&& in_range(self.max_rpm as int)
        &&& in_range(self.current_rpm as int)
        &&& in_range(self.inertia as int)
        &&& in_range(self.static_friction as int)
        &&& in_range(self.variable_friction as int)
        &&& in_range(self.variable_friction_mult as int)
    }

    /// Drive torque at the current speed under a throttle.
    pub open spec fn drive_torque(&self, throttle_input: int) -> int {
        product(sample_spec(self.torque_curve@, self.current_rpm as int), throttle_input)
    }

    /// Internal friction torque at the current speed: static plus
    /// speed-dependent friction, capped at `rpm * inertia * 2000`.
    pub open spec fn friction_torque(&self) -> int {
        min(
            sum(
                self.static_friction as int,
                product(
                    product(self.variable_friction as int, self.variable_friction_mult as int),
                    self.current_rpm as int,
                ),
            ),
            product(
                product(self.current_rpm as int, self.inertia as int),
                FRICTION_CAP_FACTOR as int,
            ),
        )
    }

    pub fn get_torque_data(&self) -> (r: &Vec<(i64, i64)>)
        ensures
            r == &self.torque_curve,
    {
        &self.torque_curve
    }

    /// Available torque at `rpm`, interpolated on the torque curve.
    pub fn sample_torque_at_rpm(&self, rpm: i64) -> (r: i64)
        requires
            self.wf(),
        ensures
            r == sample_spec(self.torque_curve@, rpm as int),
            in_range(r as int),
    {
        sample_curve(&self.torque_curve, rpm)
    }

    /// Drive torque and friction torque at the current speed.
    pub fn calc_torque(&mut self, throttle_input: i64) -> (r: (i64, i64))
        requires
            old(self).wf(),
            in_range(throttle_input as int),
        ensures
            *final(self) == *old(self),
            r.0 == old(self).drive_torque(throttle_input as int),
            r.1 == old(self).friction_torque(),
            in_range(r.0 as int),
            in_range(r.1 as int),
    {
        let torque = fx_mul(self.sample_torque_at_rpm(self.current_rpm), throttle_input);
        let friction = fx_add(
            self.static_friction,
            fx_mul(fx_mul(self.variable_friction, self.variable_friction_mult), self.current_rpm),
        );
        let friction_torque = fx_min(
            friction,
            fx_mul(fx_mul(self.current_rpm, self.inertia), FRICTION_CAP_FACTOR),
        );
        (torque, friction_torque)
    }

    /// Drives `child` for `delta_s` seconds with the torque that the throttle
    /// (limited to `[0, 1]`) asks for at the current speed. The engine's own
    /// speed is not changed.
    pub fn update(
        &mut self,
        delta_s: i64,
        vehicle_speed: i64,
        throttle_input: i64,
        child: &mut Differential,
    )
        requires
            old(self).wf(),
            old(child).wf(),
            in_range(delta_s as int),
            in_range(vehicle_speed as int),
        ensures
            *final(self) == *old(self),
            *final(child) == old(child).after(
                delta_s as int,
                vehicle_speed as int,
                old(self).drive_torque(throttle_clamped(throttle_input as int)),
            ),
            final(child).wf(),
    {
        let throttle_input = fx_min(fx_max(throttle_input, 0), SCALE);
        let (torque, _friction_torque) = self.calc_torque(throttle_input);
        let _reaction_torque = child.update(delta_s, vehicle_speed, torque);
    }
}

pub enum Engine {
    CombustionEngine(CombustionEngine),
}

/// One engine and the drivetrain tree it drives.
pub struct EngineContainer {
    pub engine: Engine,
    pub child: Differential,
}

impl Engine {
    pub open spec fn wf(&self) -> bool {
        match self {
            Engine::CombustionEngine(e) => e.wf(),
        }
    }

    /// Drive torque handed to the tree under a throttle input.
    pub open spec fn output_torque(&self, throttle_input: int) -> int {
        match self {
            Engine::CombustionEngine(e) => e.drive_torque(throttle_clamped(throttle_input)),
        }
    }
}

impl EngineContainer {
    pub open spec fn wf(&self) -> bool {
        self.engine.wf() && self.child.wf()
    }

    /// Runs one tick of `delta_s` seconds at a vehicle speed and throttle input.
    pub fn update(&mut self, delta_s: i64, vehicle_speed: i64, throttle_input: i64)
        requires
            old(self).wf(),
            in_range(delta_s as int),
            in_range(vehicle_speed as int),
        ensures
            final(self).engine == old(self).engine,
            final(self).child == old(self).child.after(
                delta_s as int,
                vehicle_speed as int,
                old(self).engine.output_torque(throttle_input as int),
            ),
            final(self).wf(),
    {
        match &mut self.engine {
            Engine::CombustionEngine(engine) => engine.update(
                delta_s,
                vehicle_speed,
                throttle_input,
                &mut self.child,
            ),
        }
    }
}

/// With a torque curve that never goes negative, a run whose root is a single
/// forward-mounted wheel never slows that wheel: each tick its angular velocity
/// and surface speed do not fall (where the surface speed is the one its
/// angular velocity gives, which the tick leaves true), whatever the throttle
/// input and vehicle speed.
pub proof fn lemma_single_wheel_run_never_slows(
    c: EngineContainer,
    delta_s: int,
    vehicle_speed: int,
    throttle_input: int,
)
    requires
        c.wf(),
        0 <= delta_s,
        in_range(delta_s),
        c.child matches Differential::WheelConnector(w) && w.direction == 1,
        c.engine matches Engine::CombustionEngine(e) && forall|i: int|
            0 <= i < e.torque_curve@.len() ==> 0 <= #[trigger] e.torque_curve@[i].1,
    ensures
        ({
            let torque = c.engine.output_torque(throttle_input);
            let n = c.child.after(delta_s, vehicle_speed, torque);
            match (c.child, n) {
                (Differential::WheelConnector(w), Differential::WheelConnector(m)) => {
                    &&& m.angular_vel >= w.angular_vel
                    &&& !w.broken ==> m.wheel_speed == product(m.angular_vel as int, m.radius as int)
                    &&& w.wheel_speed == product(w.angular_vel as int, w.radius as int)
                        ==> m.wheel_speed >= w.wheel_speed
                },
                _ => false,
            }
        }),
{
    let Engine::CombustionEngine(e) = c.engine;
    let w = c.child->WheelConnector_0;
    let th = throttle_clamped(throttle_input);
    lemma_sample_nonneg(e.torque_curve@, e.current_rpm as int);
    let y = sample_spec(e.torque_curve@, e.current_rpm as int);
    assert(0 <= y * th) by (nonlinear_arith)
        requires
            0 <= y,
            0 <= th,
    ;
    crate::fixed::lemma_quot_ordered(0, y * th, SCALE as int);
    assert(quot(0, SCALE as int) == 0);
    let torque = c.engine.output_torque(throttle_input);
    assert(0 <= torque && in_range(torque));
    lemma_wheel_never_slows(w, delta_s, vehicle_speed, torque);
    assert(w.after(delta_s, vehicle_speed, torque).radius == w.radius);
    assert(w.after(delta_s, vehicle_speed, torque).angular_vel * w.direction
        == w.after(delta_s, vehicle_speed, torque).angular_vel);
}

} // verus!
