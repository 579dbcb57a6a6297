//! A wheel at the end of the drivetrain: it turns incoming torque into angular
//! velocity and answers with the tyre's reaction torque.
use vstd::prelude::*;
use crate::tyre_model::TyreData;
use crate::fixed::{
    SCALE, LIMIT, quot, lemma_quot_error, lemma_quot_ordered, in_range, abs, max, sum, product, ratio, fx_abs, fx_max, fx_add, fx_mul, fx_div,
};

verus! {

/// Floor on each side of the slip ratio (0.01), keeping it defined at rest.
pub const EPSILON: i64 = 10_000;

#[derive(Debug, Clone)]
pub struct Wheel {
    /// Tyre data
    pub tyre: TyreData,
    /// Mounting side, `1` or `-1`, to differentiate between left and right wheels
    pub direction: i64,
    /// The radius of the wheel, including tyre (m)
    pub radius: i64,
    /// The mass of the wheel, including tyre (kg)
    pub mass: i64,
    /// Deflated, does not imply broken!
    pub deflated: bool,
    /// Whether the wheel is detached from its halfshaft
    pub broken: bool,
    /// Slip ratio of the most recent update
    pub last_slip: i64,
    /// Angular velocity before the most recent update (rad/s)
    pub last_angular_vel: i64,
    /// Angular velocity (rad/s)
    pub angular_vel: i64,
    /// Signed surface speed (m/s)
    pub wheel_speed: i64,
}

impl Wheel {
    /// Rotational inertia of a solid disc, `mass * radius^2 / 2`.
    pub open spec fn inertia(&self) -> int {
        product(self.mass as int, product(self.radius as int, self.radius as int)) / 2
    }

    pub open spec fn wf(&self) -> bool {
        &&& self.tyre.wf()
        &&& self.direction == 1 || self.direction == -1
        &&& 0 < self.radius && in_range(self.radius as int)
        &&& 0 < self.mass && in_range(self.mass as int)
        &&& self.inertia() > 0
        &&& in_range(self.last_slip as int)
        &&& in_range(self.last_angular_vel as int)
        &&& in_range(self.angular_vel as int)
        &&& in_range(self.wheel_speed as int)
    }

    /// Slip ratio against a vehicle speed: the wheel's surface speed over the
    /// vehicle's, each magnitude floored at `EPSILON`.
    pub open spec fn slip(&self, vehicle_speed: int) -> int {
        ratio(
            max(product(abs(self.angular_vel as int), self.radius as int), EPSILON as int),
            max(abs(vehicle_speed), EPSILON as int),
        )
    }

    /// Reaction torque handed back to the driveline; none from a broken wheel.
    pub open spec fn reaction(&self, vehicle_speed: int) -> int {
        if self.broken {
            0
        } else {
            self.tyre.accel_force(self.slip(vehicle_speed))
        }
    }

    /// Angular velocity after `torque` has acted for `delta_s` seconds.
    pub open spec fn spun(&self, delta_s: int, torque: int) -> int {
        sum(self.angular_vel as int, product(ratio(torque, self.inertia()), delta_s))
    }

    /// The wheel after one update; a broken wheel stays as it is.
    pub open spec fn after(self, delta_s: int, vehicle_speed: int, torque_in: int) -> Wheel {
        if self.broken {
            self
        } else {
            let w = self.spun(delta_s, torque_in);
            Wheel {
                last_slip: self.slip(vehicle_speed) as i64,
                last_angular_vel: self.angular_vel,
                angular_vel: w as i64,
                wheel_speed: product(w * self.direction, self.radius as int) as i64,
                ..self
            }
        }
    }

    /// Advances the wheel by `delta_s` seconds under `torque_in` and returns
    /// the reaction torque.
    pub fn update(&mut self, delta_s: i64, vehicle_speed: i64, torque_in: i64) -> (r: i64)
        requires
            old(self).wf(),
            in_range(delta_s as int),
            in_range(vehicle_speed as int),
            in_range(torque_in as int),
        ensures
            r == old(self).reaction(vehicle_speed as int),
            *final(self) == old(self).after(delta_s as int, vehicle_speed as int, torque_in as int),
            final(self).wf(),
            in_range(r as int),
    {
        if self.broken {
            return 0;
        }
        let accel_torque = self.calc_wheel_accel_torque(vehicle_speed);
        self.update_wheel_velocity(delta_s, torque_in);
        accel_torque
    }

    /// Records the slip ratio against `vehicle_speed` and returns the tyre's force at it.
    fn calc_wheel_accel_torque(&mut self, vehicle_speed: i64) -> (r: i64)
        requires
            old(self).wf(),
            in_range(vehicle_speed as int),
        ensures
            r == old(self).tyre.accel_force(old(self).slip(vehicle_speed as int)),
            *final(self) == (Wheel { last_slip: old(self).slip(vehicle_speed as int) as i64, ..*old(self) }),
            final(self).wf(),
            in_range(r as int),
    {
        let surface = fx_max(fx_mul(fx_abs(self.angular_vel), self.radius), EPSILON);
        let ground = fx_max(fx_abs(vehicle_speed), EPSILON);
        let slip_ratio = fx_div(surface, ground);
        self.last_slip = slip_ratio;
        self.tyre.calculate_accel_force(slip_ratio)
    }

    /// Integrates the angular velocity over `delta_s` under `torque`.
    fn update_wheel_velocity(&mut self, delta_s: i64, torque: i64)
        requires
            old(self).wf(),
            in_range(delta_s as int),
            in_range(torque as int),
        ensures
            ({
                let w = old(self).spun(delta_s as int, torque as int);
                *final(self) == Wheel {
                    last_angular_vel: old(self).angular_vel,
                    angular_vel: w as i64,
                    wheel_speed: product(w * old(self).direction, old(self).radius as int) as i64,
                    ..*old(self)
                }
            }),
            final(self).wf(),
    {
        self.last_angular_vel = self.angular_vel;
        let inertia = fx_mul(self.mass, fx_mul(self.radius, self.radius)) / 2;
        let angular_accel = fx_div(torque, inertia);
        self.angular_vel = fx_add(self.angular_vel, fx_mul(angular_accel, delta_s));
        self.wheel_speed = fx_mul(self.angular_vel * self.direction, self.radius);
    }
}

/// One update of a wheel at rest: its angular velocity becomes the torque over
/// the inertia times the time step, in fixed point; where neither step
/// saturates it differs from the exact `torque * delta_s / inertia` by less
/// than one millionth plus `delta_s` millionths. Neither step saturates when
/// the inertia is at least one and `|torque * delta_s|` is within the range of
/// quantities times the inertia. A wheel of 60 kg and radius 0.4 m has inertia 4.8.
pub proof fn lemma_integration_step(w: Wheel, delta_s: int, vehicle_speed: int, torque: int)
    requires
        w.wf(),
        !w.broken,
        w.angular_vel == 0,
        in_range(delta_s),
        in_range(torque),
    ensures
        w.mass == 60 * SCALE && w.radius == 400_000 ==> w.inertia() == 4_800_000,
        w.after(delta_s, vehicle_speed, torque).angular_vel == product(
            ratio(torque, w.inertia()),
            delta_s,
        ),
        ({
            let i = w.inertia();
            let accel = quot(torque * SCALE, i);
            let v = w.after(delta_s, vehicle_speed, torque).angular_vel as int;
            in_range(accel) && in_range(quot(accel * delta_s, SCALE as int)) ==> abs(
                v * i * SCALE - torque * delta_s * SCALE,
            ) < i * SCALE + i * abs(delta_s)
        }),
        w.inertia() >= SCALE && abs(torque) * abs(delta_s) <= LIMIT * w.inertia() ==> ({
            let accel = quot(torque * SCALE, w.inertia());
            in_range(accel) && in_range(quot(accel * delta_s, SCALE as int))
        }),
{
    let i = w.inertia();
    let s = SCALE as int;
    if w.mass == 60 * SCALE && w.radius == 400_000 {
        assert(400_000int * 400_000 == 160_000_000_000int);
        assert(160_000_000_000int / 1_000_000 == 160_000int);
        assert(product(400_000, 400_000) == 160_000);
        assert(60_000_000int * 160_000 == 9_600_000_000_000int);
        assert(9_600_000_000_000int / 1_000_000 == 9_600_000int);
    }
    let r0 = quot(torque * s, i);
    lemma_quot_error(torque * s, i);
    if i >= s && abs(torque) * abs(delta_s) <= LIMIT * i {
        assert(abs(torque * s) == abs(torque) * s) by (nonlinear_arith)
            requires
                s > 0,
        ;
        assert(abs(r0) <= abs(torque)) by (nonlinear_arith)
            requires
                abs(r0) * i <= abs(torque) * s,
                i >= s,
                s > 0,
                abs(r0) >= 0,
                abs(torque) >= 0,
        ;
        let w0 = quot(r0 * delta_s, s);
        lemma_quot_error(r0 * delta_s, s);
        assert(abs(r0 * delta_s) <= LIMIT * s) by (nonlinear_arith)
            requires
                abs(r0) * i <= abs(torque) * s,
                abs(torque) * abs(delta_s) <= LIMIT * i,
                i > 0,
                s > 0,
                abs(delta_s) >= 0,
                abs(r0) >= 0,
        ;
        assert(abs(w0) <= LIMIT) by (nonlinear_arith)
            requires
                abs(w0) * s <= abs(r0 * delta_s),
                abs(r0 * delta_s) <= LIMIT * s,
                s > 0,
        ;
    }
    if in_range(r0) {
        let w0 = quot(r0 * delta_s, s);
        lemma_quot_error(r0 * delta_s, s);
        if in_range(w0) {
            let v = w.after(delta_s, vehicle_speed, torque).angular_vel as int;
            assert(v == w0);
            let e1 = r0 * i - torque * s;
            let e2 = w0 * s - r0 * delta_s;
            assert(v * i * s - torque * delta_s * s == i * e2 + delta_s * e1) by (nonlinear_arith)
                requires
                    v == w0,
                    e1 == r0 * i - torque * s,
                    e2 == w0 * s - r0 * delta_s,
            ;
            assert(abs(i * e2 + delta_s * e1) < i * s + i * abs(delta_s)) by (nonlinear_arith)
                requires
                    abs(e1) < i,
                    abs(e2) < s,
                    i > 0,
                    s > 0,
            ;
        }
    }
}

/// Under a non-negative torque and time step a wheel never slows: its angular
/// velocity does not fall, and neither does its surface speed where that speed
/// is the one its angular velocity gives (which every update leaves true).
pub proof fn lemma_wheel_never_slows(w: Wheel, delta_s: int, vehicle_speed: int, torque: int)
    requires
        w.wf(),
        0 <= delta_s,
        in_range(delta_s),
        0 <= torque,
        in_range(torque),
    ensures
        ({
            let n = w.after(delta_s, vehicle_speed, torque);
            &&& n.angular_vel >= w.angular_vel
            &&& !w.broken ==> n.wheel_speed == product(
                n.angular_vel * w.direction,
                w.radius as int,
            )
            &&& w.direction == 1 && w.wheel_speed == product(w.angular_vel as int, w.radius as int)
                ==> n.wheel_speed >= w.wheel_speed
        }),
{
    if !w.broken {
        let s = SCALE as int;
        let i = w.inertia();
        let r = w.radius as int;
        assert(0 <= torque * s) by (nonlinear_arith)
            requires
                0 <= torque,
                s > 0,
        ;
        lemma_quot_ordered(0, torque * s, i);
        assert(quot(0, i) == 0);
        let acc = ratio(torque, i);
        assert(0 <= acc);
        assert(0 <= acc * delta_s) by (nonlinear_arith)
            requires
                0 <= acc,
                0 <= delta_s,
        ;
        lemma_quot_ordered(0, acc * delta_s, s);
        assert(quot(0, s) == 0);
        let n = w.after(delta_s, vehicle_speed, torque);
        let a0 = w.angular_vel as int;
        let a1 = n.angular_vel as int;
        assert(a1 >= a0);
        if w.direction == 1 {
            assert(a1 * w.direction == a1);
            assert(a0 * r <= a1 * r) by (nonlinear_arith)
                requires
                    a0 <= a1,
                    r > 0,
            ;
            lemma_quot_ordered(a0 * r, a1 * r, s);
        }
    }
}

} // verus!
