use nlopt::{deliver, write_gradient, ClosureContext};
use std::cell::Cell;

struct Data {
    a: f64,
    b: f64,
}

fn objective(x: &[f64], _data: &Option<&mut ()>, gradp: bool) -> (f64, Option<Vec<f64>>) {
    let grad = match gradp {
        true => Some(vec![0.0, 0.5 / x[1].sqrt()]),
        false => None,
    };
    (x[1].sqrt(), grad)
}

fn constraint(x: &[f64], data: &Option<&mut Data>, gradp: bool) -> (f64, Option<Vec<f64>>) {
    if let &Some(&mut Data { a, b }) = data {
        let grad = match gradp {
            true => Some(vec![3.0 * a * (a * x[0] + b).powi(2), -1.0]),
            false => None,
        };
        ((a * x[0] + b).powi(3) - x[1], grad)
    } else {
        panic!();
    }
}

#[test]
fn gradient_fills_the_whole_buffer() {
    let mut out = [9.0, 9.0, 9.0];
    write_gradient(&mut out, &vec![1.0, 2.0, 3.0]);
    assert_eq!(out, [1.0, 2.0, 3.0]);
}

#[test]
fn shorter_gradient_leaves_the_rest() {
    let mut out = [9.0, 8.0, 7.0];
    write_gradient(&mut out, &vec![1.0]);
    assert_eq!(out, [1.0, 8.0, 7.0]);
    write_gradient(&mut out, &Vec::new());
    assert_eq!(out, [1.0, 8.0, 7.0]);
}

#[test]
fn deliver_writes_a_gradient_that_fits() {
    let mut out = [0.0, 0.0];
    assert!(deliver(Some(&mut out[..]), &Some(vec![4.0, 5.0])));
    assert_eq!(out, [4.0, 5.0]);
}

#[test]
fn deliver_without_gradient_leaves_buffer() {
    let mut out = [6.0, 7.0];
    assert!(deliver(Some(&mut out[..]), &None));
    assert_eq!(out, [6.0, 7.0]);
}

#[test]
fn deliver_without_buffer_writes_nothing() {
    assert!(deliver::<f64>(None, &Some(vec![1.0, 2.0])));
    assert!(deliver::<f64>(None, &None));
}

#[test]
fn deliver_refuses_a_gradient_that_is_too_long() {
    let mut out = [6.0, 7.0];
    assert!(!deliver(Some(&mut out[..]), &Some(vec![1.0, 2.0, 3.0])));
    assert_eq!(out, [6.0, 7.0]);
}

#[test]
fn forward_returns_value_and_writes_gradient() {
    let ctx = ClosureContext::create(objective, None);
    let x = [1.234, 5.678];
    let mut grad = [0.0, 0.0];
    let value = ctx.forward(&x, Some(&mut grad[..]));
    assert_eq!(value, Some(5.678f64.sqrt()));
    assert_eq!(grad, [0.0, 0.5 / 5.678f64.sqrt()]);
}

#[test]
fn forward_without_buffer_asks_for_no_gradient() {
    let asked = Cell::new(None);
    let closure = |x: &[f64], _s: &Option<&mut ()>, gradp: bool| {
        asked.set(Some(gradp));
        (x[0], Some(vec![1.0, 1.0]))
    };
    let ctx = ClosureContext::create(closure, None);
    let value = ctx.forward(&[3.5, 4.5], None);
    assert_eq!(value, Some(3.5));
    assert_eq!(asked.get(), Some(false));
}

#[test]
fn forward_with_buffer_asks_for_gradient() {
    let asked = Cell::new(None);
    let closure = |x: &[f64], _s: &Option<&mut ()>, gradp: bool| {
        asked.set(Some(gradp));
        (x[0], None)
    };
    let ctx = ClosureContext::create(closure, None);
    let mut grad = [7.0, 8.0];
    let value = ctx.forward(&[3.5, 4.5], Some(&mut grad[..]));
    assert_eq!(value, Some(3.5));
    assert_eq!(asked.get(), Some(true));
    assert_eq!(grad, [7.0, 8.0]);
}

#[test]
fn forward_hands_the_lent_state_to_the_closure() {
    let mut data = Data { a: 2.0, b: 0.0 };
    let ctx = ClosureContext::create(constraint, Some(&mut data));
    let x = [1.234, 5.678];
    let mut grad = [0.0, 0.0];
    let value = ctx.forward(&x, Some(&mut grad[..]));
    assert_eq!(value, Some((2.0f64 * 1.234).powi(3) - 5.678));
    assert_eq!(grad, [3.0 * 2.0 * (2.0f64 * 1.234).powi(2), -1.0]);

    let mut other = Data { a: -1.0, b: 1.0 };
    let ctx = ClosureContext::create(constraint, Some(&mut other));
    let value = ctx.forward(&x, None);
    assert_eq!(value, Some((-1.234f64 + 1.0).powi(3) - 5.678));
}

#[test]
fn forward_refuses_a_gradient_that_is_too_long() {
    let closure = |_x: &[f64], _s: &Option<&mut ()>, _gradp: bool| (1.0, Some(vec![1.0, 2.0, 3.0]));
    let ctx = ClosureContext::create(closure, None);
    let mut grad = [7.0, 8.0];
    assert_eq!(ctx.forward(&[0.0, 0.0], Some(&mut grad[..])), None);
    assert_eq!(grad, [7.0, 8.0]);
    assert_eq!(ctx.forward(&[0.0, 0.0], None), Some(1.0));
}

#[test]
fn context_keeps_closure_and_state() {
    let mut count = 41u32;
    let ctx = ClosureContext::create(
        |_x: &[f64], s: &Option<&mut u32>, _g: bool| {
            let seen = match s {
                Some(n) => **n as f64,
                None => -1.0,
            };
            (seen, None)
        },
        Some(&mut count),
    );
    assert_eq!(ctx.forward(&[0.0], None), Some(41.0));
}
