//! The torque-splitting tree between the engine and the wheels.
use vstd::prelude::*;
use crate::wheels::Wheel;
use crate::fixed::{LIMIT, in_range, abs, quot, sum, product, fx_add, fx_mul};

verus! {

/// Share of the incoming torque that each side of a welded coupler receives (one half).
pub const HALF: i64 = 500_000;

/// Readings of one wheel after an update.
#[derive(Debug, Clone, Copy, PartialEq, Eq, Structural)]
pub struct WheelTelemetry {
    pub angular_vel: i64,
    pub wheel_speed: i64,
    pub last_slip: i64,
}

pub open spec fn telemetry_of(w: Wheel) -> WheelTelemetry {
    WheelTelemetry { angular_vel: w.angular_vel, wheel_speed: w.wheel_speed, last_slip: w.last_slip }
}

/// A node of the drivetrain: a wheel, or a coupler over two subtrees.
pub enum Differential {
    WheelConnector(Wheel),
    WeldedDiff(WeldedDiff),
}

/// A welded coupler: both outputs get half of the torque, and the reaction is
/// the sum of theirs.
///
/// The two outputs are named fields rather than an array of two, so that each
/// recursion into a subtree is visibly a step down the tree.
pub struct WeldedDiff {
    pub left: Box<Differential>,
    pub right: Box<Differential>,
}

/// Torque that each side of a welded coupler receives.
pub open spec fn half(torque: int) -> int {
    product(torque, HALF as int)
}

impl Differential {
    pub open spec fn size(self) -> nat
        decreases self,
    {
        match self {
            Differential::WheelConnector(_) => 1,
            Differential::WeldedDiff(d) => 1 + d.size(),
        }
    }

    pub open spec fn wf(self) -> bool
        decreases self,
    {
        match self {
            Differential::WheelConnector(w) => w.wf(),
            Differential::WeldedDiff(d) => d.wf(),
        }
    }

    /// Reaction torque of the subtree under `torque_in`.
    pub open spec fn reaction(self, vehicle_speed: int, torque_in: int) -> int
        decreases self,
    {
        match self {
            Differential::WheelConnector(w) => w.reaction(vehicle_speed),
            Differential::WeldedDiff(d) => d.reaction(vehicle_speed, torque_in),
        }
    }

    /// The subtree after one update under `torque_in`.
    pub open spec fn after(self, delta_s: int, vehicle_speed: int, torque_in: int) -> Differential
        decreases self,
    {
        match self {
            Differential::WheelConnector(w) => Differential::WheelConnector(
                w.after(delta_s, vehicle_speed, torque_in),
            ),
            Differential::WeldedDiff(d) => Differential::WeldedDiff(
                d.after(delta_s, vehicle_speed, torque_in),
            ),
        }
    }

    /// Readings of the subtree's wheels, left before right.
    pub open spec fn telemetry(self) -> Seq<WheelTelemetry>
        decreases self,
    {
        match self {
            Differential::WheelConnector(w) => seq![telemetry_of(w)],
            Differential::WeldedDiff(d) => d.telemetry(),
        }
    }

    /// Readings of every wheel of the subtree, left before right.
    pub fn wheels(&self) -> (r: Vec<WheelTelemetry>)
        ensures
            r@ == self.telemetry(),
    {
        let mut out: Vec<WheelTelemetry> = Vec::new();
        self.collect_wheels(&mut out);
        proof {
            assert(out@ =~= self.telemetry());
        }
        out
    }

    fn collect_wheels(&self, out: &mut Vec<WheelTelemetry>)
        ensures
            final(out)@ == old(out)@ + self.telemetry(),
        decreases self.size(),
    {
        match self {
            Differential::WheelConnector(w) => {
                out.push(
                    WheelTelemetry {
                        angular_vel: w.angular_vel,
                        wheel_speed: w.wheel_speed,
                        last_slip: w.last_slip,
                    },
                );
            },
            Differential::WeldedDiff(d) => {
                d.left.collect_wheels(out);
                d.right.collect_wheels(out);
                proof {
                    assert(out@ =~= old(out)@ + self.telemetry());
                }
            },
        }
    }

    /// Passes `torque_in` down the subtree for `delta_s` seconds and returns the
    /// reaction torque that its wheels produce.
    pub fn update(&mut self, delta_s: i64, vehicle_speed: i64, torque_in: i64) -> (r: i64)
        requires
            old(self).wf(),
            in_range(delta_s as int),
            in_range(vehicle_speed as int),
            in_range(torque_in as int),
        ensures
            r == old(self).reaction(vehicle_speed as int, torque_in as int),
            *final(self) == old(self).after(delta_s as int, vehicle_speed as int, torque_in as int),
            final(self).wf(),
            in_range(r as int),
        decreases old(self).size(),
    {
        match self {
            Differential::WheelConnector(wheel) => wheel.update(delta_s, vehicle_speed, torque_in),
            Differential::WeldedDiff(diff) => diff.update(delta_s, vehicle_speed, torque_in),
        }
    }
}

impl WeldedDiff {
    pub open spec fn size(self) -> nat
        decreases self,
    {
        1 + self.left.size() + self.right.size()
    }

    pub open spec fn wf(self) -> bool
        decreases self,
    {
        self.left.wf() && self.right.wf()
    }

    pub open spec fn telemetry(self) -> Seq<WheelTelemetry>
        decreases self,
    {
        self.left.telemetry() + self.right.telemetry()
    }

    pub open spec fn reaction(self, vehicle_speed: int, torque_in: int) -> int
        decreases self,
    {
        sum(
            self.left.reaction(vehicle_speed, half(torque_in)),
            self.right.reaction(vehicle_speed, half(torque_in)),
        )
    }

    pub open spec fn after(self, delta_s: int, vehicle_speed: int, torque_in: int) -> WeldedDiff
        decreases self,
    {
        WeldedDiff {
            left: Box::new(self.left.after(delta_s, vehicle_speed, half(torque_in))),
            right: Box::new(self.right.after(delta_s, vehicle_speed, half(torque_in))),
        }
    }

    /// Splits `torque_in` evenly between both sides, updates the left side and
    /// then the right, and returns the sum of their reaction torques.
    pub fn update(&mut self, delta_s: i64, vehicle_speed: i64, torque_in: i64) -> (r: i64)
        requires
            old(self).wf(),
            in_range(delta_s as int),
            in_range(vehicle_speed as int),
            in_range(torque_in as int),
        ensures
            r == old(self).reaction(vehicle_speed as int, torque_in as int),
            *final(self) == old(self).after(delta_s as int, vehicle_speed as int, torque_in as int),
            final(self).wf(),
            in_range(r as int),
        decreases old(self).size(),
    {
        let output_a = fx_mul(torque_in, HALF);
        let output_b = fx_mul(torque_in, HALF);
        let reaction_a = self.left.update(delta_s, vehicle_speed, output_a);
        let reaction_b = self.right.update(delta_s, vehicle_speed, output_b);
        fx_add(reaction_a, reaction_b)
    }
}

/// Half of a torque, rounded toward zero, is what each side of a coupler gets.
pub proof fn lemma_half_is_halving(torque: int)
    requires
        in_range(torque),
    ensures
        half(torque) == quot(torque, 2),
{
    let a = abs(torque);
    assert((a * 500_000) / 1_000_000 == a / 2) by (nonlinear_arith)
        requires
            a >= 0,
    ;
    assert(abs(torque * 500_000) == a * 500_000);
    assert(a / 2 <= LIMIT);
}

/// Under a torque `T`, each side of a welded coupler is updated under exactly
/// half of `T`, and the coupler's reaction is the (saturating) sum of the two
/// sides' reactions: their plain sum whenever that sum is in range.
pub proof fn lemma_coupler_conservation(
    d: WeldedDiff,
    delta_s: int,
    vehicle_speed: int,
    torque: int,
)
    requires
        d.wf(),
        in_range(torque),
    ensures
        half(torque) == quot(torque, 2),
        d.after(delta_s, vehicle_speed, torque).left == Box::new(
            d.left.after(delta_s, vehicle_speed, quot(torque, 2)),
        ),
        d.after(delta_s, vehicle_speed, torque).right == Box::new(
            d.right.after(delta_s, vehicle_speed, quot(torque, 2)),
        ),
        ({
            let a = d.left.reaction(vehicle_speed, quot(torque, 2));
            let b = d.right.reaction(vehicle_speed, quot(torque, 2));
            &&& d.reaction(vehicle_speed, torque) == sum(a, b)
            &&& in_range(a + b) ==> d.reaction(vehicle_speed, torque) == a + b
        }),
{
    lemma_half_is_halving(torque);
}

/// A broken wheel hands back no reaction torque and keeps its state through an
/// update, whatever torque reaches it.
pub proof fn lemma_broken_wheel_isolated(
    w: Wheel,
    delta_s: int,
    vehicle_speed: int,
    torque: int,
)
    requires
        w.broken,
    ensures
        Differential::WheelConnector(w).reaction(vehicle_speed, torque) == 0,
        Differential::WheelConnector(w).after(delta_s, vehicle_speed, torque)
            == Differential::WheelConnector(w),
{
}

} // verus!
