//! A single-axis tyre model: friction coefficient from sliding velocity and
//! load, and longitudinal force from slip ratio.
use vstd::prelude::*;
use crate::curve::{curve_wf, sample_spec, sample_curve};
use crate::fixed::{
    SCALE, LIMIT, in_range, abs, min, sum, diff, product, ratio, quot, fx_abs, fx_min, fx_add,
    fx_sub, fx_mul, fx_div, lemma_quot_ordered, lemma_quot_exact, lemma_clamp_ordered,
};
use vstd::arithmetic::mul::lemma_mul_inequality;

verus! {

/// `pi / 2`, the largest slip magnitude that the force law looks at.
pub const HALF_PI: i64 = 1_570_796;

/// Calibration constants of a tyre. All quantities are fixed-point millionths.
///
/// The friction coefficient follows the linear rule: the sliding term moves in
/// a straight line from `static_friction_coeff` at rest to
/// `sliding_friction_coeff` at `stribeck_velocity`, the load term from
/// `no_load_coeff` at no load to `full_load_coeff` where
/// `load * load_sensitivity` reaches one, and the coefficient is their product.
///
/// The longitudinal force law is held as `force_curve`: samples of the force
/// magnitude against slip magnitude, starting at `(0, 0)`.
#[derive(Debug, Clone)]
pub struct TyreData {
    /// Friction coefficient under no load
    pub no_load_coeff: i64,
    /// Friction coefficient under full load
    pub full_load_coeff: i64,
    /// Affects how quickly the tyre reaches full_load_coeff under load
    pub load_sensitivity: i64,
    /// Friction coefficient with zero slip
    pub static_friction_coeff: i64,
    /// Friction coefficient with max slip
    pub sliding_friction_coeff: i64,
    /// The bigger the value, the slower the transition to the sliding friction coefficient is
    pub stribeck_velocity: i64,
    /// Smoothing of the Stribeck curve; the linear rule does not read it
    pub stribeck_exponent: i64,
    /// Longitudinal force magnitude against slip magnitude
    pub force_curve: Vec<(i64, i64)>,
}

/// Linear blend from `a` at `t = 0` to `b` at `t = 1`.
pub open spec fn lerp_spec(a: int, b: int, t: int) -> int {
    sum(a, product(diff(b, a), t))
}

/// Blend parameter of the sliding term.
pub open spec fn slide_t(stribeck_velocity: int, sliding_vel: int) -> int {
    min(ratio(sliding_vel, stribeck_velocity), SCALE as int)
}

/// Sliding term of the friction coefficient: a straight line from
/// `static_friction_coeff` at rest to `sliding_friction_coeff` at
/// `stribeck_velocity`, constant beyond.
pub open spec fn sliding_coeff(
    static_friction_coeff: int,
    sliding_friction_coeff: int,
    stribeck_velocity: int,
    sliding_vel: int,
) -> int {
    lerp_spec(
        static_friction_coeff,
        sliding_friction_coeff,
        slide_t(stribeck_velocity, sliding_vel),
    )
}

/// Blend parameter of the load term.
pub open spec fn load_t(load_sensitivity: int, load: int) -> int {
    min(product(load, load_sensitivity), SCALE as int)
}

impl TyreData {
    pub open spec fn wf(&self) -> bool {
        &&& 0 <= self.no_load_coeff && in_range(self.no_load_coeff as int)
        &&& 0 <= self.full_load_coeff && in_range(self.full_load_coeff as int)
        &&& 0 < self.load_sensitivity && in_range(self.load_sensitivity as int)
        &&& 0 <= self.static_friction_coeff && in_range(self.static_friction_coeff as int)
        &&& 0 <= self.sliding_friction_coeff && in_range(self.sliding_friction_coeff as int)
        &&& 0 < self.stribeck_velocity && in_range(self.stribeck_velocity as int)
        &&& 0 <= self.stribeck_exponent && in_range(self.stribeck_exponent as int)
        &&& curve_wf(self.force_curve@)
        &&& self.force_curve@[0] == (0i64, 0i64)
    }

    /// The sliding term of the friction coefficient.
    pub open spec fn slide_coeff(&self, sliding_vel: int) -> int {
        sliding_coeff(
            self.static_friction_coeff as int,
            self.sliding_friction_coeff as int,
            self.stribeck_velocity as int,
            sliding_vel,
        )
    }

    /// The load term of the friction coefficient.
    pub open spec fn load_coeff(&self, load: int) -> int {
        lerp_spec(
            self.no_load_coeff as int,
            self.full_load_coeff as int,
            load_t(self.load_sensitivity as int, load),
        )
    }

    pub open spec fn friction_coeff(&self, sliding_vel: int, load: int) -> int {
        product(self.slide_coeff(sliding_vel), self.load_coeff(load))
    }

    /// Longitudinal force at a slip ratio: the force curve at the slip
    /// magnitude (at most `HALF_PI`), with the sign of the slip.
    pub open spec fn accel_force(&self, slip_ratio: int) -> int {
        let f = sample_spec(self.force_curve@, min(abs(slip_ratio), HALF_PI as int));
        if slip_ratio >= 0 {
            f
        } else {
            -f
        }
    }

    /// Friction coefficient at a sliding velocity (m/s) under a load (N).
    pub fn calculate_friction_coeff(&self, sliding_vel: i64, load: i64) -> (r: i64)
        requires
            self.wf(),
            in_range(sliding_vel as int),
            in_range(load as int),
        ensures
            r == self.friction_coeff(sliding_vel as int, load as int),
            in_range(r as int),
    {
        let coeff_a = friction_coeff_while_sliding(
            self.static_friction_coeff,
            self.sliding_friction_coeff,
            self.stribeck_velocity,
            self.stribeck_exponent,
            sliding_vel,
        );
        let coeff_b = friction_coeff_under_load(
            self.no_load_coeff,
            self.full_load_coeff,
            self.load_sensitivity,
            load,
        );
        fx_mul(coeff_a, coeff_b)
    }

    /// Longitudinal force produced at a slip ratio.
    pub fn calculate_accel_force(&self, slip_ratio: i64) -> (r: i64)
        requires
            self.wf(),
            in_range(slip_ratio as int),
        ensures
            r == self.accel_force(slip_ratio as int),
            in_range(r as int),
    {
        let magnitude = fx_min(fx_abs(slip_ratio), HALF_PI);
        let f = sample_curve(&self.force_curve, magnitude);
        if slip_ratio >= 0 {
            f
        } else {
            -f
        }
    }
}

/// The longitudinal force is odd in the slip ratio, and zero at zero slip.
pub proof fn lemma_accel_force_antisymmetric(t: TyreData, s: int)
    requires
        t.wf(),
    ensures
        t.accel_force(-s) == -t.accel_force(s),
        t.accel_force(0) == 0,
{
    assert(abs(-s) == abs(s));
}

/// A blend keeps the order of its parameter: rising from `a` toward `b`
/// when `a <= b`, falling when `b <= a`.
proof fn lemma_lerp_ordered(a: int, b: int, t1: int, t2: int)
    requires
        in_range(a),
        in_range(b),
        t1 <= t2,
    ensures
        a <= b ==> lerp_spec(a, b, t1) <= lerp_spec(a, b, t2),
        b <= a ==> lerp_spec(a, b, t1) >= lerp_spec(a, b, t2),
{
    let d = diff(b, a);
    if a <= b {
        lemma_mul_inequality(t1, t2, d);
        assert(d * t1 <= d * t2) by (nonlinear_arith)
            requires
                t1 * d <= t2 * d,
        ;
        lemma_quot_ordered(d * t1, d * t2, SCALE as int);
        lemma_clamp_ordered(quot(d * t1, SCALE as int), quot(d * t2, SCALE as int));
        lemma_clamp_ordered(a + product(d, t1), a + product(d, t2));
    }
    if b <= a {
        lemma_mul_inequality(t1, t2, -d);
        assert(d * t2 <= d * t1) by (nonlinear_arith)
            requires
                t1 * (-d) <= t2 * (-d),
        ;
        lemma_quot_ordered(d * t2, d * t1, SCALE as int);
        lemma_clamp_ordered(quot(d * t2, SCALE as int), quot(d * t1, SCALE as int));
        lemma_clamp_ordered(a + product(d, t2), a + product(d, t1));
    }
}

/// A blend is `a` at `t = 0` and `b` at `t = 1`.
proof fn lemma_lerp_ends(a: int, b: int)
    requires
        0 <= a <= LIMIT,
        0 <= b <= LIMIT,
    ensures
        lerp_spec(a, b, 0) == a,
        lerp_spec(a, b, SCALE as int) == b,
{
    assert(diff(b, a) == b - a);
    lemma_quot_exact(b - a, SCALE as int);
    assert(diff(b, a) * 0 == 0);
}

/// The sliding term of the friction coefficient starts at
/// `static_friction_coeff` at rest and moves monotonically toward
/// `sliding_friction_coeff` (rising or falling, whichever way that lies) as the
/// sliding velocity grows, staying between the two; from `stribeck_velocity`
/// on it is `sliding_friction_coeff`.
pub proof fn lemma_sliding_coeff_monotonic(
    static_friction_coeff: int,
    sliding_friction_coeff: int,
    stribeck_velocity: int,
    v1: int,
    v2: int,
)
    requires
        0 <= static_friction_coeff <= LIMIT,
        0 <= sliding_friction_coeff <= LIMIT,
        0 < stribeck_velocity <= LIMIT,
        0 <= v1 <= v2,
        in_range(v2),
    ensures
        ({
            let a = static_friction_coeff;
            let b = sliding_friction_coeff;
            let f1 = sliding_coeff(a, b, stribeck_velocity, v1);
            let f2 = sliding_coeff(a, b, stribeck_velocity, v2);
            &&& sliding_coeff(a, b, stribeck_velocity, 0) == a
            &&& a <= b ==> a <= f1 <= f2 <= b
            &&& b <= a ==> a >= f1 >= f2 >= b
            &&& v1 >= stribeck_velocity ==> f1 == b && f2 == b
        }),
{
    let sv = stribeck_velocity;
    let a = static_friction_coeff;
    let b = sliding_friction_coeff;
    let s = SCALE as int;
    lemma_lerp_ends(a, b);
    assert(0 * s == 0);
    assert(v1 * s <= v2 * s) by (nonlinear_arith)
        requires
            v1 <= v2,
            s > 0,
    ;
    assert(0 <= v1 * s) by (nonlinear_arith)
        requires
            0 <= v1,
            s > 0,
    ;
    lemma_quot_ordered(0, v1 * s, sv);
    lemma_quot_ordered(v1 * s, v2 * s, sv);
    lemma_clamp_ordered(quot(v1 * s, sv), quot(v2 * s, sv));
    lemma_clamp_ordered(0, quot(v1 * s, sv));
    assert(quot(0, sv) == 0);
    let t1 = slide_t(sv, v1);
    let t2 = slide_t(sv, v2);
    assert(0 <= t1 <= t2 <= s);
    lemma_lerp_ordered(a, b, 0, t1);
    lemma_lerp_ordered(a, b, t1, t2);
    lemma_lerp_ordered(a, b, t2, s);
    if v1 >= sv {
        assert(sv * s <= v1 * s) by (nonlinear_arith)
            requires
                sv <= v1,
                s > 0,
        ;
        lemma_quot_exact(s, sv);
        assert(s * sv == sv * s) by (nonlinear_arith);
        lemma_quot_ordered(sv * s, v1 * s, sv);
        lemma_clamp_ordered(quot(sv * s, sv), quot(v1 * s, sv));
    }
}

fn lerp(a: i64, b: i64, t: i64) -> (r: i64)
    requires
        in_range(a as int),
        in_range(b as int),
        in_range(t as int),
    ensures
        r == lerp_spec(a as int, b as int, t as int),
        in_range(r as int),
{
    fx_add(a, fx_mul(fx_sub(b, a), t))
}

/// Sliding term of the friction coefficient at `sliding_vel` (m/s). The
/// linear rule does not read the Stribeck exponent.
pub fn friction_coeff_while_sliding(
    static_friction_coeff: i64,
    sliding_friction_coeff: i64,
    stribeck_velocity: i64,
    _stribeck_exponent: i64,
    sliding_vel: i64,
) -> (r: i64)
    requires
        in_range(static_friction_coeff as int),
        in_range(sliding_friction_coeff as int),
        in_range(stribeck_velocity as int),
        stribeck_velocity != 0,
        in_range(sliding_vel as int),
    ensures
        r == sliding_coeff(
            static_friction_coeff as int,
            sliding_friction_coeff as int,
            stribeck_velocity as int,
            sliding_vel as int,
        ),
        in_range(r as int),
{
    let t = fx_div(sliding_vel, stribeck_velocity);
    lerp(static_friction_coeff, sliding_friction_coeff, fx_min(t, SCALE))
}

/// Load term of the friction coefficient under `load` (N).
pub fn friction_coeff_under_load(
    no_load_coeff: i64,
    full_load_coeff: i64,
    load_sensitivity: i64,
    load: i64,
) -> (r: i64)
    requires
        in_range(no_load_coeff as int),
        in_range(full_load_coeff as int),
        in_range(load_sensitivity as int),
        in_range(load as int),
    ensures
        r == lerp_spec(
            no_load_coeff as int,
            full_load_coeff as int,
            load_t(load_sensitivity as int, load as int),
        ),
        in_range(r as int),
{
    let t = fx_min(fx_mul(load, load_sensitivity), SCALE);
    lerp(no_load_coeff, full_load_coeff, t)
}

} // verus!
