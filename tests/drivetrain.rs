use rust_vehsim::differential::{Differential, WeldedDiff, WheelTelemetry};
use rust_vehsim::engine::{CombustionEngine, Engine, EngineContainer};
use rust_vehsim::curve::closest_points;
use rust_vehsim::fixed::SCALE;
use rust_vehsim::tyre_model::{friction_coeff_while_sliding, TyreData, HALF_PI};
use rust_vehsim::wheels::Wheel;

fn fx(v: f64) -> i64 {
    (v * SCALE as f64).round() as i64
}

fn to_f64(v: i64) -> f64 {
    v as f64 / SCALE as f64
}

/// Samples `atan(s * a) * b + a^-s * c - c` on `[0, pi/2]`.
fn force_curve(a: f64, b: f64, c: f64, n: i64) -> Vec<(i64, i64)> {
    let mut points = Vec::new();
    for k in 0..=n {
        let x = HALF_PI * k / n;
        let s = to_f64(x);
        let f = (s * a).atan() * b + a.powf(-s) * c - c;
        points.push((x, if k == 0 { 0 } else { fx(f) }));
    }
    points
}

fn example_tyre() -> TyreData {
    TyreData {
        no_load_coeff: fx(2.08),
        full_load_coeff: fx(0.7),
        load_sensitivity: fx(0.00023),
        static_friction_coeff: fx(1.0),
        sliding_friction_coeff: fx(1.0),
        stribeck_velocity: fx(1.0),
        stribeck_exponent: fx(2.0),
        force_curve: force_curve(22.0, 3220.0, 2700.0, 64),
    }
}

fn linear_tyre() -> TyreData {
    TyreData {
        force_curve: vec![(0, 0), (fx(1.0), fx(1000.0)), (HALF_PI, fx(1500.0))],
        ..example_tyre()
    }
}

fn example_wheel(tyre: TyreData) -> Wheel {
    Wheel {
        tyre,
        direction: 1,
        radius: fx(0.4),
        mass: fx(60.0),
        deflated: false,
        broken: false,
        last_slip: 0,
        last_angular_vel: 0,
        angular_vel: 0,
        wheel_speed: 0,
    }
}

fn example_engine(current_rpm: f64) -> CombustionEngine {
    let samples = [
        (1000.0, 393.0),
        (1500.0, 420.0),
        (2000.0, 435.0),
        (2500.0, 448.0),
        (3000.0, 455.0),
        (3500.0, 463.0),
        (4000.0, 471.0),
        (4500.0, 475.0),
        (5000.0, 463.0),
        (5500.0, 440.0),
        (5800.0, 395.0),
    ];
    CombustionEngine {
        torque_curve: samples.iter().map(|&(r, t)| (fx(r), fx(t))).collect(),
        idle_rpm: fx(1100.0),
        max_rpm: fx(5750.0),
        current_rpm: fx(current_rpm),
        inertia: fx(0.21),
        static_friction: fx(8.0),
        variable_friction: fx(0.008),
        variable_friction_mult: fx(1.0),
    }
}

#[test]
fn torque_curve_hits_samples_exactly() {
    let engine = example_engine(0.0);
    for &(rpm, torque) in engine.get_torque_data() {
        assert_eq!(engine.sample_torque_at_rpm(rpm), torque);
    }
    assert_eq!(engine.sample_torque_at_rpm(fx(4500.0)), fx(475.0));
}

#[test]
fn torque_curve_interpolates_between_samples() {
    let engine = example_engine(0.0);
    assert_eq!(engine.sample_torque_at_rpm(fx(4250.0)), 473_000_000);
    assert_eq!(engine.sample_torque_at_rpm(fx(1234.5)), 405_663_000);
    assert_eq!(engine.sample_torque_at_rpm(fx(5650.0)), 417_500_000);
}

#[test]
fn torque_curve_clamps_outside_span() {
    let engine = example_engine(0.0);
    assert_eq!(engine.sample_torque_at_rpm(0), fx(393.0));
    assert_eq!(engine.sample_torque_at_rpm(fx(999.0)), fx(393.0));
    assert_eq!(engine.sample_torque_at_rpm(-fx(5000.0)), fx(393.0));
    assert_eq!(engine.sample_torque_at_rpm(fx(5801.0)), fx(395.0));
    assert_eq!(engine.sample_torque_at_rpm(fx(9000.0)), fx(395.0));
}

#[test]
fn calc_torque_scales_by_throttle_and_caps_friction() {
    let mut engine = example_engine(4500.0);
    let (torque, friction) = engine.calc_torque(SCALE);
    assert_eq!(torque, fx(475.0));
    // 8 + 0.008 * 1 * 4500 = 44, below 4500 * 0.21 * 2000
    assert_eq!(friction, fx(44.0));
    let (half_torque, _) = engine.calc_torque(SCALE / 2);
    assert_eq!(half_torque, fx(237.5));
    engine.current_rpm = fx(0.01);
    let (_, capped) = engine.calc_torque(SCALE);
    // min(8.00008, 0.01 * 0.21 * 2000 = 4.2)
    assert_eq!(capped, fx(4.2));
}

#[test]
fn friction_coeff_at_rest_and_no_load() {
    let tyre = example_tyre();
    assert_eq!(tyre.calculate_friction_coeff(0, 0), fx(2.08));
}

#[test]
fn friction_coeff_under_load() {
    let tyre = example_tyre();
    assert_eq!(tyre.calculate_friction_coeff(0, fx(2000.0)), 1_445_200);
    // load * sensitivity beyond one saturates at the full-load coefficient
    assert_eq!(tyre.calculate_friction_coeff(0, fx(8000.0)), fx(0.7));
}

#[test]
fn sliding_friction_falls_monotonically_then_holds() {
    let tyre = TyreData {
        static_friction_coeff: fx(1.2),
        sliding_friction_coeff: fx(0.8),
        stribeck_velocity: fx(2.0),
        no_load_coeff: fx(1.0),
        ..example_tyre()
    };
    let speeds = [0.0, 0.5, 1.0, 1.5, 2.0, 3.0, 5.0];
    let coeffs: Vec<i64> = speeds.iter().map(|&v| tyre.calculate_friction_coeff(fx(v), 0)).collect();
    assert_eq!(coeffs[0], fx(1.2));
    assert_eq!(coeffs[1], fx(1.1));
    for pair in coeffs.windows(2) {
        assert!(pair[0] >= pair[1]);
    }
    assert_eq!(coeffs[4], fx(0.8));
    assert_eq!(coeffs[5], fx(0.8));
    assert_eq!(coeffs[6], fx(0.8));
}

#[test]
fn accel_force_is_antisymmetric() {
    let tyre = example_tyre();
    assert_eq!(tyre.calculate_accel_force(0), 0);
    for s in [1, 1000, 50_000, 300_000, 1_000_000, 1_570_796, 3_000_000] {
        let f = tyre.calculate_accel_force(s);
        assert!(f > 0);
        assert_eq!(tyre.calculate_accel_force(-s), -f);
    }
}

#[test]
fn accel_force_follows_curve_and_clamps_slip() {
    let tyre = linear_tyre();
    assert_eq!(tyre.calculate_accel_force(fx(0.5)), fx(500.0));
    assert_eq!(tyre.calculate_accel_force(-fx(0.25)), -fx(250.0));
    assert_eq!(tyre.calculate_accel_force(fx(1.0)), fx(1000.0));
    assert_eq!(tyre.calculate_accel_force(HALF_PI), fx(1500.0));
    assert_eq!(tyre.calculate_accel_force(fx(10.0)), fx(1500.0));
    assert_eq!(tyre.calculate_accel_force(-fx(10.0)), -fx(1500.0));
}

#[test]
fn closed_form_force_rises_then_saturates() {
    let tyre = example_tyre();
    let small = tyre.calculate_accel_force(fx(0.05));
    let large = tyre.calculate_accel_force(fx(1.0));
    assert!(small > 0 && large > small);
    let expected = (22.0f64).atan() * 3220.0 + (22.0f64).powf(-1.0) * 2700.0 - 2700.0;
    assert!((to_f64(large) - expected).abs() < 5.0);
}

#[test]
fn integration_step_from_rest() {
    let mut wheel = example_wheel(linear_tyre());
    wheel.update(66_667, 0, fx(100.0));
    assert_eq!(wheel.angular_vel, 1_388_895);
    let exact = 100.0 / (60.0 * 0.4 * 0.4 / 2.0) * to_f64(66_667);
    assert!((to_f64(wheel.angular_vel) - exact).abs() < 1e-5);
    assert_eq!(wheel.last_angular_vel, 0);
    assert_eq!(wheel.wheel_speed, 555_558);
}

#[test]
fn wheel_records_floored_slip_and_returns_tyre_force() {
    let mut wheel = example_wheel(linear_tyre());
    let reaction = wheel.update(fx(0.1), 0, fx(100.0));
    // both speeds floored at 0.01: slip ratio one
    assert_eq!(wheel.last_slip, SCALE);
    assert_eq!(reaction, fx(1000.0));
    wheel.angular_vel = fx(10.0);
    let reaction = wheel.update(fx(0.1), fx(8.0), 0);
    // 10 rad/s * 0.4 m = 4 m/s against 8 m/s
    assert_eq!(wheel.last_slip, fx(0.5));
    assert_eq!(reaction, fx(500.0));
    assert_eq!(wheel.angular_vel, fx(10.0));
}

#[test]
fn wheel_direction_sets_speed_sign() {
    let mut wheel = Wheel { direction: -1, ..example_wheel(linear_tyre()) };
    wheel.update(fx(0.5), 0, fx(48.0));
    assert_eq!(wheel.angular_vel, fx(5.0));
    assert_eq!(wheel.wheel_speed, -fx(2.0));
}

#[test]
fn broken_wheel_is_isolated() {
    let mut wheel = Wheel {
        broken: true,
        angular_vel: fx(3.0),
        wheel_speed: fx(1.2),
        last_slip: fx(0.3),
        ..example_wheel(example_tyre())
    };
    let mut node = Differential::WheelConnector(wheel.clone());
    assert_eq!(wheel.update(fx(0.1), fx(5.0), fx(400.0)), 0);
    assert_eq!(wheel.angular_vel, fx(3.0));
    assert_eq!(wheel.wheel_speed, fx(1.2));
    assert_eq!(wheel.last_slip, fx(0.3));
    assert_eq!(node.update(fx(0.1), fx(5.0), -fx(400.0)), 0);
    if let Differential::WheelConnector(w) = &node {
        assert_eq!(w.angular_vel, fx(3.0));
        assert_eq!(w.wheel_speed, fx(1.2));
    }
}

#[test]
fn coupler_splits_evenly_and_sums_reactions() {
    let left = Wheel { angular_vel: fx(10.0), ..example_wheel(linear_tyre()) };
    let right = Wheel { angular_vel: fx(5.0), ..example_wheel(linear_tyre()) };
    let mut lone_left = left.clone();
    let mut lone_right = right.clone();
    let a = lone_left.update(fx(0.1), fx(8.0), fx(50.0));
    let b = lone_right.update(fx(0.1), fx(8.0), fx(50.0));
    assert_eq!(a, fx(500.0));
    assert_eq!(b, fx(250.0));
    let mut coupler = WeldedDiff {
        left: Box::new(Differential::WheelConnector(left)),
        right: Box::new(Differential::WheelConnector(right)),
    };
    assert_eq!(coupler.update(fx(0.1), fx(8.0), fx(100.0)), a + b);
    match (&*coupler.left, &*coupler.right) {
        (Differential::WheelConnector(l), Differential::WheelConnector(r)) => {
            assert_eq!(l.angular_vel, lone_left.angular_vel);
            assert_eq!(r.angular_vel, lone_right.angular_vel);
            // 50 Nm over 4.8 for 0.1 s on top of 10 rad/s
            assert_eq!(l.angular_vel, fx(10.0) + 1_041_666);
        }
        _ => panic!("coupler children changed kind"),
    }
}

#[test]
fn coupler_with_broken_side_reacts_with_other_side_only() {
    let healthy = Wheel { angular_vel: fx(10.0), ..example_wheel(linear_tyre()) };
    let broken = Wheel { broken: true, ..example_wheel(linear_tyre()) };
    let mut node = Differential::WeldedDiff(WeldedDiff {
        left: Box::new(Differential::WheelConnector(broken)),
        right: Box::new(Differential::WheelConnector(healthy)),
    });
    assert_eq!(node.update(fx(0.1), fx(8.0), fx(100.0)), fx(500.0));
}

#[test]
fn nested_couplers_quarter_the_torque() {
    let leaf = || Box::new(Differential::WheelConnector(example_wheel(linear_tyre())));
    let mut root = Differential::WeldedDiff(WeldedDiff {
        left: Box::new(Differential::WeldedDiff(WeldedDiff { left: leaf(), right: leaf() })),
        right: leaf(),
    });
    root.update(fx(1.0), 0, fx(96.0));
    if let Differential::WeldedDiff(top) = &root {
        if let Differential::WheelConnector(w) = &*top.right {
            assert_eq!(w.angular_vel, fx(10.0));
        }
        if let Differential::WeldedDiff(inner) = &*top.left {
            if let Differential::WheelConnector(w) = &*inner.left {
                assert_eq!(w.angular_vel, fx(5.0));
            }
        }
    }
}

#[test]
fn engine_update_clamps_throttle_and_keeps_rpm() {
    let mut engine = example_engine(4500.0);
    let mut child = Differential::WheelConnector(example_wheel(linear_tyre()));
    engine.update(fx(0.1), 0, fx(3.0), &mut child);
    assert_eq!(engine.current_rpm, fx(4500.0));
    if let Differential::WheelConnector(w) = &child {
        // 475 Nm over 4.8 for 0.1 s
        assert_eq!(w.angular_vel, 9_895_833);
    }
    let mut idle = Differential::WheelConnector(example_wheel(linear_tyre()));
    engine.update(fx(0.1), 0, -fx(1.0), &mut idle);
    if let Differential::WheelConnector(w) = &idle {
        assert_eq!(w.angular_vel, 0);
        assert_eq!(w.last_slip, SCALE);
    }
}

#[test]
fn end_to_end_single_wheel_run() {
    let mut container = EngineContainer {
        engine: Engine::CombustionEngine(example_engine(4500.0)),
        child: Differential::WheelConnector(example_wheel(example_tyre())),
    };
    let delta_s = fx(1.0 / 15.0);
    let mut vehicle_speed: i64 = 0;
    let mut previous_speed: i64 = 0;
    for tick in 0..450 {
        container.update(delta_s, vehicle_speed, SCALE);
        let wheel = match &container.child {
            Differential::WheelConnector(w) => w,
            _ => panic!("root is a wheel"),
        };
        if tick == 0 {
            assert_eq!(wheel.last_slip, SCALE);
        }
        if vehicle_speed > previous_speed {
            assert!(wheel.wheel_speed > previous_speed);
        }
        assert!(wheel.wheel_speed > previous_speed);
        assert!(wheel.last_slip > 0);
        previous_speed = wheel.wheel_speed;
        vehicle_speed += delta_s / 2;
    }
    match &container.engine {
        Engine::CombustionEngine(e) => assert_eq!(e.current_rpm, fx(4500.0)),
    }
}

#[test]
fn telemetry_lists_wheels_left_to_right() {
    let wheel = |v: f64| Box::new(Differential::WheelConnector(Wheel { angular_vel: fx(v), ..example_wheel(linear_tyre()) }));
    let mut root = Differential::WeldedDiff(WeldedDiff {
        left: Box::new(Differential::WeldedDiff(WeldedDiff { left: wheel(1.0), right: wheel(2.0) })),
        right: wheel(3.0),
    });
    let before = root.wheels();
    assert_eq!(before.len(), 3);
    assert_eq!(
        before.iter().map(|t| t.angular_vel).collect::<Vec<_>>(),
        vec![fx(1.0), fx(2.0), fx(3.0)]
    );
    root.update(fx(0.1), fx(2.0), 0);
    let after = root.wheels();
    assert_eq!(
        after[2],
        WheelTelemetry { angular_vel: fx(3.0), wheel_speed: fx(1.2), last_slip: fx(0.6) }
    );
    assert_eq!(after[0].last_slip, fx(0.2));
}

#[test]
fn closest_points_bracket_end_samples() {
    let engine = example_engine(0.0);
    let c = engine.get_torque_data();
    let n = c.len();
    assert_eq!(closest_points(c, c[0].0), (c[0], c[1]));
    assert_eq!(closest_points(c, c[n - 1].0), (c[n - 2], c[n - 1]));
    assert_eq!(closest_points(c, fx(1500.0)), (c[0], c[1]));
    assert_eq!(closest_points(c, fx(1700.0)), (c[1], c[2]));
    assert_eq!(closest_points(c, fx(999.0)), (c[0], c[0]));
    assert_eq!(closest_points(c, fx(6000.0)), (c[n - 1], c[n - 1]));
}

#[test]
fn sliding_friction_term_rises_and_holds() {
    let f = |v: f64| friction_coeff_while_sliding(fx(0.6), fx(1.0), fx(2.0), fx(2.0), fx(v));
    assert_eq!(f(0.0), fx(0.6));
    assert_eq!(f(1.0), fx(0.8));
    assert!(f(0.5) <= f(1.5));
    assert_eq!(f(2.0), fx(1.0));
    assert_eq!(f(7.0), fx(1.0));
}
