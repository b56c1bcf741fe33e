//! Tests of the fixed-depth register stack over `f64` slots, the type the
//! inline-math layer uses.

use dss_parser::RegisterStack;

use std::f64::consts::E;
use std::f64::consts::PI;

const EPSILON: f64 = 1e-10;

fn fresh() -> RegisterStack<f64> {
    RegisterStack::new(0.0)
}

#[test]
fn test_new_and_getters() {
    let calc = fresh();
    assert_eq!(calc.get_x(), 0.0);
    assert_eq!(calc.get_y(), 0.0);
    assert_eq!(calc.get_z(), 0.0);
}

#[test]
fn test_setters() {
    let mut calc = fresh();

    calc.set_x(1.0);
    assert_eq!(calc.get_x(), 1.0);
    assert_eq!(calc.get_y(), 0.0);

    calc.set_x(2.0);
    assert_eq!(calc.get_x(), 2.0);
    assert_eq!(calc.get_y(), 1.0);

    calc.set_y(10.0);
    calc.set_z(20.0);
    assert_eq!(calc.get_x(), 2.0);
    assert_eq!(calc.get_y(), 10.0);
    assert_eq!(calc.get_z(), 20.0);
}

#[test]
fn test_arithmetic_operations() {
    let mut calc = fresh();

    // 5 + 3 = 8
    calc.set_x(5.0);
    calc.set_x(3.0);
    let r = calc.get_y() + calc.get_x();
    calc.apply_binary(r);
    assert_eq!(calc.get_x(), 8.0);

    // 10 - 4 = 6
    calc.set_x(10.0);
    calc.set_x(4.0);
    let r = calc.get_y() - calc.get_x();
    calc.apply_binary(r);
    assert_eq!(calc.get_x(), 6.0);

    // 7 * 8 = 56
    calc.set_x(7.0);
    calc.set_x(8.0);
    let r = calc.get_y() * calc.get_x();
    calc.apply_binary(r);
    assert_eq!(calc.get_x(), 56.0);

    // 20 / 4 = 5
    calc.set_x(20.0);
    calc.set_x(4.0);
    let r = calc.get_y() / calc.get_x();
    calc.apply_binary(r);
    assert_eq!(calc.get_x(), 5.0);
}

#[test]
fn test_stack_operations() {
    let mut calc = fresh();

    calc.set_x(1.0);
    calc.set_x(2.0);
    calc.set_x(3.0);

    assert_eq!(calc.get_x(), 3.0);
    assert_eq!(calc.get_y(), 2.0);
    assert_eq!(calc.get_z(), 1.0);

    calc.roll_down();
    assert_eq!(calc.get_x(), 2.0);
    assert_eq!(calc.get_y(), 1.0);
    assert_eq!(calc.get_z(), 0.0);

    calc.roll_up();
    assert_eq!(calc.get_x(), 2.0);
    assert_eq!(calc.get_y(), 2.0);
    assert_eq!(calc.get_z(), 1.0);
}

#[test]
fn test_swap_xy() {
    let mut calc = fresh();

    calc.set_x(5.0);
    calc.set_x(10.0);
    assert_eq!(calc.get_x(), 10.0);
    assert_eq!(calc.get_y(), 5.0);

    calc.swap_xy();
    assert_eq!(calc.get_x(), 5.0);
    assert_eq!(calc.get_y(), 10.0);
}

#[test]
fn test_unary_result_replaces_top() {
    let mut calc = fresh();

    // sqrt(25) = 5, computed outside and written into the top slot
    calc.set_x(7.0);
    calc.set_x(25.0);
    let r = calc.get_x().sqrt();
    calc.apply_unary(r);
    assert_eq!(calc.get_x(), 5.0);
    assert_eq!(calc.get_y(), 7.0);
}

#[test]
fn test_enter_pi() {
    let mut calc = fresh();

    calc.set_x(PI);
    assert!((calc.get_x() - PI).abs() < EPSILON);

    calc.set_x(42.0);
    calc.set_x(PI);
    assert!((calc.get_x() - PI).abs() < EPSILON);
    assert_eq!(calc.get_y(), 42.0);

    calc.set_x(PI);
    assert!((calc.get_x() - PI).abs() < EPSILON);
    assert!((calc.get_y() - PI).abs() < EPSILON);
    assert_eq!(calc.get_z(), 42.0);
}

#[test]
fn test_complex_calculations() {
    let mut calc = fresh();

    // (5 + 3) * 2 = 16
    calc.set_x(5.0);
    calc.set_x(3.0);
    let r = calc.get_y() + calc.get_x();
    calc.apply_binary(r);
    calc.set_x(2.0);
    let r = calc.get_y() * calc.get_x();
    calc.apply_binary(r);
    assert_eq!(calc.get_x(), 16.0);

    // sqrt((3^2) + (4^2)) = 5
    let mut calc = fresh();
    calc.set_x(3.0);
    let r = calc.get_x() * calc.get_x();
    calc.apply_unary(r);
    calc.set_x(4.0);
    let r = calc.get_x() * calc.get_x();
    calc.apply_unary(r);
    assert_eq!((calc.get_x(), calc.get_y(), calc.get_z()), (16.0, 9.0, 0.0));
    let r = calc.get_y() + calc.get_x();
    calc.apply_binary(r);
    assert_eq!((calc.get_x(), calc.get_y(), calc.get_z()), (25.0, 0.0, 0.0));
    let r = calc.get_x().sqrt();
    calc.apply_unary(r);
    assert_eq!((calc.get_x(), calc.get_y(), calc.get_z()), (5.0, 0.0, 0.0));
}

#[test]
fn test_trig_identity_sin2_plus_cos2() {
    let mut calc = fresh();
    let deg_to_rad = PI / 180.0;

    // sin^2(30 deg) + cos^2(30 deg) = 1
    calc.set_x(30.0);
    let r = (deg_to_rad * calc.get_x()).sin();
    calc.apply_unary(r);
    let r = calc.get_x() * calc.get_x();
    calc.apply_unary(r);

    calc.set_x(30.0);
    let r = (deg_to_rad * calc.get_x()).cos();
    calc.apply_unary(r);
    let r = calc.get_x() * calc.get_x();
    calc.apply_unary(r);

    let r = calc.get_y() + calc.get_x();
    calc.apply_binary(r);
    assert!((calc.get_x() - 1.0).abs() < 1e-9);
}

#[test]
fn test_logarithmic_round_trip() {
    let mut calc = fresh();

    // ln(e^x) = x for x = 2.5
    calc.set_x(2.5);
    let r = calc.get_x().exp();
    calc.apply_unary(r);
    let r = calc.get_x().ln();
    calc.apply_unary(r);
    assert!((calc.get_x() - 2.5).abs() < EPSILON);

    // ln(e) = 1
    calc.set_x(E);
    let r = calc.get_x().ln();
    calc.apply_unary(r);
    assert!((calc.get_x() - 1.0).abs() < EPSILON);
}

#[test]
fn test_stack_depth() {
    let mut calc = fresh();

    // Fill the entire stack; values pushed beyond the tenth slot vanish.
    for i in 1..=10 {
        calc.set_x(i as f64);
    }

    assert_eq!(calc.get_x(), 10.0);
    assert_eq!(calc.get_y(), 9.0);
    assert_eq!(calc.get_z(), 8.0);

    // The deep slots kept the early values.
    for _ in 0..7 {
        calc.roll_down();
    }
    assert_eq!(calc.get_x(), 3.0);
    assert_eq!(calc.get_y(), 2.0);
    assert_eq!(calc.get_z(), 1.0);
}

#[test]
fn test_binary_collapse_duplicates_bottom() {
    let mut calc = fresh();
    for i in 1..=10 {
        calc.set_x(i as f64);
    }
    // After a collapse the former bottom value appears twice at the bottom.
    let r = calc.get_y() + calc.get_x();
    calc.apply_binary(r);
    assert_eq!(calc.get_x(), 19.0);
    for _ in 0..8 {
        calc.roll_down();
    }
    assert_eq!(calc.get_y(), 1.0);
    assert_eq!(calc.get_x(), 1.0);
}
