use benito_core::doubles::{clamp, hold, is_greater, SEVEN_TENTHS, THREE_HUNDRED, TWO, ZERO};
use benito_core::stop::{StopHooks, StopReason};

fn samples() -> Vec<f64> {
    vec![
        f64::NEG_INFINITY,
        f64::MIN,
        -2.5,
        -1.0,
        -f64::MIN_POSITIVE,
        -5e-324,
        -0.0,
        0.0,
        5e-324,
        f64::MIN_POSITIVE,
        0.7,
        1.0,
        1.9999999999999998,
        2.0,
        2.0000000000000004,
        300.0,
        f64::MAX,
        f64::INFINITY,
        f64::NAN,
        -f64::NAN,
    ]
}

#[test]
fn patterns_stand_for_their_numbers() {
    assert_eq!(f64::from_bits(ZERO), 0.0);
    assert_eq!(f64::from_bits(TWO), 2.0);
    assert_eq!(f64::from_bits(THREE_HUNDRED), 300.0);
    assert_eq!(f64::from_bits(SEVEN_TENTHS), 0.7);
}

#[test]
fn patterns_are_ordered_as_numbers() {
    for a in samples() {
        for b in samples() {
            assert_eq!(is_greater(a.to_bits(), b.to_bits()), a > b);
        }
    }
}

#[test]
fn clamping_is_that_of_numbers() {
    for x in samples() {
        assert_eq!(clamp(x.to_bits(), ZERO, TWO), x.clamp(0.0, 2.0).to_bits());
        let held = if x.is_nan() { 0.0 } else { x.clamp(0.0, 2.0) };
        assert_eq!(hold(x.to_bits(), ZERO, TWO), held.to_bits());
    }
}

#[test]
fn new_hooks_have_default_limits() {
    let h = StopHooks::new();
    assert_eq!(h.max_iterations, 20);
    assert_eq!(h.max_time_seconds, 300.0f64.to_bits());
    assert_eq!(h.max_cost_cents, 0);
    assert_eq!(h.current_iteration, 0);
    assert_eq!(h.turn_start, None);
    assert_eq!(h.current_cost_cents, 0);
}

#[test]
fn rounds_run_out() {
    let mut h = StopHooks::new();
    h.set_max_iterations(2);
    h.start_turn(5);
    assert_eq!(h.tick_iteration(0.0f64.to_bits()), StopReason::Continue);
    assert_eq!(h.tick_iteration(0.0f64.to_bits()), StopReason::Continue);
    assert_eq!(h.tick_iteration(0.0f64.to_bits()), StopReason::MaxIterations(2));
    assert_eq!(h.current_iteration, 3);
    h.start_turn(9);
    assert_eq!(h.current_iteration, 0);
    assert_eq!(h.turn_start, Some(9));
    assert_eq!(h.tick_iteration(0.0f64.to_bits()), StopReason::Continue);
}

#[test]
fn time_runs_out_only_in_a_started_turn() {
    let mut h = StopHooks::new();
    h.set_max_time(1.5f64.to_bits());
    assert_eq!(h.tick_iteration(2.0f64.to_bits()), StopReason::Continue);
    h.start_turn(0);
    assert_eq!(h.tick_iteration(1.5f64.to_bits()), StopReason::Continue);
    assert_eq!(
        h.tick_iteration(1.6f64.to_bits()),
        StopReason::MaxTime(1.5f64.to_bits())
    );
    h.set_max_time(f64::NAN.to_bits());
    assert_eq!(h.tick_iteration(1e9f64.to_bits()), StopReason::Continue);
}

#[test]
fn cost_runs_out() {
    let mut h = StopHooks::new();
    h.start_turn(0);
    h.add_cost(1_000);
    assert_eq!(h.tick_iteration(ZERO), StopReason::Continue);
    h.set_max_cost(1_000);
    assert_eq!(h.tick_iteration(ZERO), StopReason::Continue);
    h.add_cost(1);
    assert_eq!(h.tick_iteration(ZERO), StopReason::MaxCost(1_000));
    h.start_turn(1);
    assert_eq!(h.current_cost_cents, 0);
    assert_eq!(h.tick_iteration(ZERO), StopReason::Continue);
}

#[test]
fn rounds_come_before_time_and_time_before_cost() {
    let mut h = StopHooks::new();
    h.set_max_iterations(1);
    h.set_max_time(1.0f64.to_bits());
    h.set_max_cost(1);
    h.start_turn(0);
    h.add_cost(5);
    assert_eq!(h.tick_iteration(9.0f64.to_bits()), StopReason::MaxTime(1.0f64.to_bits()));
    assert_eq!(h.tick_iteration(9.0f64.to_bits()), StopReason::MaxIterations(1));
    h.start_turn(0);
    h.add_cost(5);
    assert_eq!(h.tick_iteration(0.5f64.to_bits()), StopReason::MaxCost(1));
}
