use mandelbrot::fractal::{evaluate, ComplexPoint, MnComputation};

fn cx(re: f64, im: f64) -> ComplexPoint {
    ComplexPoint { re: re.to_bits(), im: im.to_bits() }
}

#[test]
fn diverging_computation_reach_threshold() {
    let c = MnComputation::new(cx(-0.86, 0.3));

    assert_eq!(c.to_threshold(50).is_none(), false);
}

#[test]
fn converging_computation_doesnt_reach_threshold() {
    let c = MnComputation::new(cx(-0.1, 0.1));

    assert_eq!(c.to_threshold(50).is_none(), true);
}

#[test]
fn escape_is_detected_at_the_first_step() {
    // |c| = 3 > 2: the very first iterate z1 = c already bails out.
    let r = evaluate(cx(3.0, 0.0), 10);
    let rec = r.expect("a seed outside the escape radius must stop");
    assert_eq!(rec.step, 1);
    assert_eq!(rec.zn, cx(3.0, 0.0));
}

#[test]
fn origin_is_rejected_by_the_cardioid_test_whatever_the_budget() {
    assert!(MnComputation::new(cx(0.0, 0.0)).is_in_bulb());
    assert!(evaluate(cx(0.0, 0.0), 1).is_none());
    assert!(evaluate(cx(0.0, 0.0), 50).is_none());
    assert!(evaluate(cx(0.0, 0.0), 1_000_000).is_none());
}

#[test]
fn deep_cardioid_point_is_rejected() {
    assert!(MnComputation::new(cx(-0.1, 0.1)).is_in_bulb());
    assert!(evaluate(cx(-0.1, 0.1), 1_000_000).is_none());
}

#[test]
fn evaluate_is_idempotent() {
    let a = evaluate(cx(-0.86, 0.3), 500);
    let b = evaluate(cx(-0.86, 0.3), 500);
    assert_eq!(a, b);
    let a = evaluate(cx(0.3, 0.5), 2000);
    let b = evaluate(cx(0.3, 0.5), 2000);
    assert_eq!(a, b);
}

#[test]
fn exact_cycle_is_detected() {
    // c = -2: the orbit is 0, -2, 2, 2, ... — an exact fixed point in
    // doubles. The checkpoint lands on 2 at step 3, and step 4 matches it.
    let r = evaluate(cx(-2.0, 0.0), 50);
    let rec = r.expect("an exactly periodic orbit must be caught");
    assert_eq!(rec.step, 4);
    assert_eq!(rec.zn, cx(2.0, 0.0));
}

#[test]
fn cardioid_test_takes_the_true_root_distance() {
    // (0, 0.68) sits just outside the main cardioid; without the square
    // root in the closed-form test it would look inside. It escapes in a
    // handful of steps.
    let c = MnComputation::new(cx(0.0, 0.68));
    assert!(!c.is_in_bulb());
    assert!(c.to_threshold(100).is_some());
}

#[test]
fn period_two_bulb_is_rejected() {
    // (-1, 0.2) lies in the period-2 bulb but not in the cardioid.
    let c = MnComputation::new(cx(-1.0, 0.2));
    assert!(c.is_in_bulb());
    assert!(evaluate(cx(-1.0, 0.2), 1_000_000).is_none());
}

#[test]
fn budget_of_one_performs_no_steps() {
    // One step allowed means zero iterations: even an escaping seed comes
    // back as "presumed in the set".
    assert!(evaluate(cx(3.0, 0.0), 1).is_none());
}
