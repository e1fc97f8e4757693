use railsim::train::Train;

fn class_802(name: u64) -> Train {
    Train::new(name, 300_000, 700_000, 3, 2500, 3500, 1000, 9810)
}

#[test]
fn derived_constants_match_the_configuration() {
    let t = class_802(802208);
    assert_eq!(t.mass, 300_000);
    assert_eq!(t.power, 2_100_000);
    assert_eq!(t.axle_resistance, 5_886_000);
    assert_eq!(t.rolling_resistance, 4_414_500);
    assert_eq!(t.air_resistance_coefficient, 8_750_000);
    assert_eq!(t.max_tractive_effort, 150_000_000);
    assert_eq!(t.velocity, 0);
    assert_eq!(t.throttle, 0);
    assert!(!t.emergency);
}

#[test]
fn one_tick_at_speed_follows_the_force_balance() {
    let mut t = class_802(1);
    t.velocity = 25_000;
    t.target_velocity = 25_000;
    t.target_distance = 1_000_000_000;
    t.throttle = 100;
    // Zero target acceleration and zero current acceleration: throttle
    // stays. Resistance: 5_886_000 + 4_414_500 + 8_750_000 * 25_000^2 /
    // 10^9 = 15_769_250 mN. Traction: power-limited to 2_100_000 * 10^6 /
    // 25_000 = 84_000_000 mN. Net force 68_230_750 mN over 300_000 kg
    // gives 227 mm/s^2; 10 ms then adds 2 mm/s and carries 250 mm.
    t.update(10);
    assert_eq!(t.throttle, 100);
    assert_eq!(t.acceleration, 227);
    assert_eq!(t.velocity, 25_002);
    assert_eq!(t.position, 250);
}

#[test]
fn braking_curve_steps_throttle_down() {
    let mut t = class_802(1);
    t.velocity = 10_000;
    t.target_velocity = 0;
    t.target_distance = 100_000;
    // Target acceleration is (0 - 10_000^2) / (2 * 95_000) truncated:
    // -526 mm/s^2; the current acceleration 0 exceeds it, so the throttle
    // steps down by 10.
    t.update(10);
    assert_eq!(t.throttle, -10);
}

#[test]
fn saturated_service_brake_escalates_to_emergency() {
    let mut t = class_802(1);
    t.velocity = 10_000;
    t.target_velocity = 0;
    t.target_distance = 100_000;
    t.throttle = -150;
    t.update(10);
    assert_eq!(t.throttle, -200);
    assert!(t.emergency);
}

#[test]
fn emergency_clears_once_nearly_stopped() {
    let mut t = class_802(1);
    t.emergency = true;
    t.throttle = -200;
    t.velocity = 50;
    t.update(10);
    assert!(!t.emergency);
    assert_eq!(t.throttle, 0);
}

#[test]
fn emergency_persists_while_moving() {
    let mut t = class_802(1);
    t.emergency = true;
    t.throttle = -200;
    t.velocity = 20_000;
    t.update(10);
    assert!(t.emergency);
    assert_eq!(t.throttle, -200);
}

#[test]
fn vanished_margin_steers_by_the_velocity_gap_alone() {
    // When the safety margin consumes the whole remaining distance the
    // kinematic divisor vanishes; a target above the current speed still
    // opens the throttle.
    let mut t = class_802(1);
    t.target_velocity = 10_000;
    t.target_distance = 5_000;
    t.update(10);
    assert_eq!(t.throttle, 10);
}

#[test]
fn steady_state_keeps_acceleration_near_zero() {
    // Physics conservation: with the target velocity equal to the current
    // velocity and plenty of distance, the controller holds the train in a
    // narrow band around the target with small accelerations and a
    // moderate, non-braking throttle.
    let mut t = class_802(1);
    t.velocity = 25_000;
    t.target_velocity = 25_000;
    t.target_distance = 1_000_000_000;
    for _ in 0..200 {
        t.update(10);
        assert!(t.acceleration.abs() <= 300);
        assert!(0 <= t.throttle && t.throttle <= 100);
        assert!((t.velocity - 25_000).abs() <= 500);
    }
}
