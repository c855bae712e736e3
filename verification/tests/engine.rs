use std::str::FromStr;

use dcf_simulator::classifier::ModelKind;
use dcf_simulator::document::{Row, StateData};
use dcf_simulator::engine::{compute, resolve_parameters, ProjectionParameters, ResultCache};
use dcf_simulator::numeric::{
    negated, parse_or_default, Numerics, Operation, ONE, SIGN_BIT, TOLERANCE, ZERO,
};
use dcf_simulator::projection::calculate_cashflow;
use dcf_simulator::segment::{
    constant_samples, evaluate_segment, extend_repeated, function_samples, resample,
    trajectory_samples, zero_samples, Evaluator,
};
use dcf_simulator::valuation::{calculate_dcf, terminal_value, valuate, DcfData};
use meval::Expr;
use ode_solvers::{Dopri5, SVector, System};

// ---- the host: floating-point arithmetic, formulas and integration ----

fn arith(op: Operation, a: u64, b: u64) -> u64 {
    let (x, y) = (f64::from_bits(a), f64::from_bits(b));
    let r = match op {
        Operation::Add => x + y,
        Operation::Sub => x - y,
        Operation::Mul => x * y,
        Operation::Div => x / y,
    };
    r.to_bits()
}

fn exceeds(a: u64, b: u64) -> bool {
    f64::from_bits(a) > f64::from_bits(b)
}

fn from_index(n: usize) -> u64 {
    (n as f64).to_bits()
}

fn parse(text: &String) -> Option<u64> {
    text.parse::<f64>().ok().map(f64::to_bits)
}

fn constant(expr: &String) -> Option<u64> {
    Expr::from_str(expr).ok()?.eval().ok().map(f64::to_bits)
}

type Bound = Box<dyn Fn(u64) -> u64>;

fn bind(expr: &String) -> Option<Bound> {
    let f = Expr::from_str(expr).ok()?.bind("t").ok()?;
    Some(Box::new(move |t: u64| f(f64::from_bits(t)).to_bits()))
}

struct Rhs<F: Fn(f64, f64) -> f64>(F);

impl<F: Fn(f64, f64) -> f64> System<f64, SVector<f64, 1>> for Rhs<F> {
    fn system(&self, t: f64, y: &SVector<f64, 1>, dy: &mut SVector<f64, 1>) {
        dy[0] = (self.0)(t, y[0]);
    }
}

fn trajectory(
    expr: &String,
    length: usize,
    initial: u64,
    step: u64,
    tolerance: u64,
) -> Option<(Vec<u64>, Vec<u64>)> {
    let rhs = Expr::from_str(expr).ok()?.bind2("t", "y").ok()?;
    let tolerance = f64::from_bits(tolerance);
    let mut solver = Dopri5::new(
        Rhs(rhs),
        0.0,
        length as f64,
        f64::from_bits(step),
        [f64::from_bits(initial)].into(),
        tolerance,
        tolerance,
    );
    match solver.integrate() {
        Ok(_) => Some((
            solver.x_out().iter().map(|x| x.to_bits()).collect(),
            solver.y_out().iter().map(|y| y[0].to_bits()).collect(),
        )),
        Err(_) => None,
    }
}

type Constant = fn(&String) -> Option<u64>;
type Bind = fn(&String) -> Option<Bound>;
type Trajectory = fn(&String, usize, u64, u64, u64) -> Option<(Vec<u64>, Vec<u64>)>;
type Arith = fn(Operation, u64, u64) -> u64;
type Exceeds = fn(u64, u64) -> bool;
type FromIndex = fn(usize) -> u64;

fn evaluator() -> Evaluator<Constant, Bind, Trajectory> {
    Evaluator { constant, bind, trajectory }
}

fn numerics() -> Numerics<Arith, Exceeds, FromIndex> {
    Numerics { arith, exceeds, from_index }
}

fn rows(list: &[(&str, &str)]) -> Vec<Row> {
    list.iter().map(|(end, expr)| Row { end: end.to_string(), expr: expr.to_string() }).collect()
}

fn bits(values: &[f64]) -> Vec<u64> {
    values.iter().map(|v| v.to_bits()).collect()
}

fn floats(values: &[u64]) -> Vec<f64> {
    values.iter().map(|v| f64::from_bits(*v)).collect()
}

fn project(list: &[(&str, &str)], step: f64) -> Option<Vec<f64>> {
    calculate_cashflow(&rows(list), step.to_bits(), &evaluator(), &numerics()).map(|v| floats(&v))
}

fn document(list: &[(&str, &str)], growth: &str, discount: &str, step: &str) -> StateData {
    StateData {
        rows: rows(list),
        growth: growth.to_string(),
        discount: discount.to_string(),
        ode_step_size: step.to_string(),
        use_log_scale: false,
    }
}

// ---- a plain floating-point projection to hold the engine against ----

fn plain_cashflow(list: &[(&str, &str)], step_text: &str) -> Option<Vec<f64>> {
    let mut output: Vec<f64> = Vec::new();
    let mut prev_period: usize = 0;
    for (end, expr) in list {
        let period = end.parse::<usize>().unwrap_or(0);
        if period < prev_period {
            return None;
        }
        let n = period - prev_period;
        prev_period = period;
        let parsed = match Expr::from_str(expr) {
            Ok(e) => e,
            Err(_) => {
                output.extend(std::iter::repeat(0.0).take(n));
                continue;
            }
        };
        if expr.contains('y') {
            let rhs = match parsed.bind2("t", "y") {
                Ok(f) => f,
                Err(_) => {
                    output.extend(std::iter::repeat(0.0).take(n));
                    continue;
                }
            };
            let mut solver = Dopri5::new(
                Rhs(rhs),
                0.0,
                n as f64,
                step_text.parse().unwrap_or(1.0),
                [output.last().cloned().unwrap_or(0.0)].into(),
                1e-10,
                1e-10,
            );
            match solver.integrate() {
                Ok(_) => {
                    let x_out = solver.x_out();
                    let y_out: Vec<f64> = solver.y_out().iter().map(|v| v[0]).collect();
                    let step = x_out[1] - x_out[0];
                    let mut n_counter: usize = if output.is_empty() { 0 } else { 1 };
                    for (i, &x) in x_out.iter().enumerate() {
                        if x - (n_counter as f64) > -step {
                            output.push(y_out[i]);
                            n_counter += 1;
                        }
                    }
                }
                Err(_) => output.extend(std::iter::repeat(0.0).take(n)),
            }
        } else if expr.contains('t') {
            let f = match parsed.bind("t") {
                Ok(f) => f,
                Err(_) => {
                    output.extend(std::iter::repeat(0.0).take(n));
                    continue;
                }
            };
            if output.is_empty() {
                output.push(f(0.0));
            }
            for t in 1..=n {
                output.push(f(t as f64));
            }
        } else {
            let c = match parsed.eval() {
                Ok(c) => c,
                Err(_) => {
                    output.extend(std::iter::repeat(0.0).take(n));
                    continue;
                }
            };
            if output.is_empty() {
                output.push(c);
            }
            for _ in 1..=n {
                output.push(c);
            }
        }
    }
    Some(output)
}

fn plain_dcf(cashflow: &[f64], rate: f64) -> Vec<(f64, f64, f64)> {
    let mut output = Vec::new();
    let mut discount = 1.0;
    let mut dcf_sum = 0.0;
    for &c in cashflow {
        let dcf_unit = c / discount;
        dcf_sum += dcf_unit;
        discount *= rate;
        output.push((c, dcf_unit, dcf_sum));
    }
    output
}

fn same_bits(a: &[f64], b: &[f64]) -> bool {
    a.len() == b.len() && a.iter().zip(b).all(|(x, y)| x.to_bits() == y.to_bits())
}

// ---- the fixed bit patterns ----

#[test]
fn constants_are_the_bit_patterns_of_their_numbers() {
    assert_eq!(ZERO, 0.0f64.to_bits());
    assert_eq!(ONE, 1.0f64.to_bits());
    assert_eq!(TOLERANCE, 1e-10f64.to_bits());
    assert_eq!(SIGN_BIT, (-0.0f64).to_bits());
}

#[test]
fn negated_flips_the_sign_as_float_negation_does() {
    let samples = [
        0.0,
        -0.0,
        1.0,
        -1.0,
        0.01,
        1e-10,
        1e300,
        f64::MIN_POSITIVE,
        f64::MAX,
        f64::INFINITY,
        f64::NEG_INFINITY,
        f64::NAN,
    ];
    for x in samples {
        assert_eq!(negated(x.to_bits()), (-x).to_bits());
        assert_eq!(negated(negated(x.to_bits())), x.to_bits());
    }
    assert_eq!(negated(0), SIGN_BIT);
}

#[test]
fn parse_or_default_substitutes_the_fallback() {
    assert_eq!(parse_or_default(Some(7), ONE), 7);
    assert_eq!(parse_or_default(None, ONE), ONE);
    assert_eq!(parse_or_default(Some(ZERO), ONE), ZERO);
    assert_eq!(parse_or_default(None, 42), 42);
}

// ---- blocks ----

#[test]
fn zero_samples_gives_one_zero_per_period() {
    assert_eq!(zero_samples(0), Vec::<u64>::new());
    assert_eq!(zero_samples(3), vec![0, 0, 0]);
}

#[test]
fn extend_repeated_appends_copies() {
    let mut block = vec![1, 2];
    extend_repeated(&mut block, 9, 3);
    assert_eq!(block, vec![1, 2, 9, 9, 9]);
    extend_repeated(&mut block, 4, 0);
    assert_eq!(block, vec![1, 2, 9, 9, 9]);
}

#[test]
fn constant_samples_adds_the_leading_sample_only_when_opening() {
    let five = 5.0f64.to_bits();
    assert_eq!(constant_samples(Some(five), 3, true), vec![five; 4]);
    assert_eq!(constant_samples(Some(five), 3, false), vec![five; 3]);
    assert_eq!(constant_samples(Some(five), 0, true), vec![five]);
    assert_eq!(constant_samples(Some(five), 0, false), Vec::<u64>::new());
}

#[test]
fn constant_samples_zero_fills_a_failure_without_leading_sample() {
    assert_eq!(constant_samples(None, 3, true), vec![0, 0, 0]);
    assert_eq!(constant_samples(None, 3, false), vec![0, 0, 0]);
    assert_eq!(constant_samples(None, 0, true), Vec::<u64>::new());
}

#[test]
fn function_samples_evaluates_at_the_integer_times() {
    let n = numerics();
    let square = |t: u64| (f64::from_bits(t) * f64::from_bits(t)).to_bits();
    assert_eq!(floats(&function_samples(Some(square), 3, true, &n)), vec![0.0, 1.0, 4.0, 9.0]);
    assert_eq!(floats(&function_samples(Some(square), 3, false, &n)), vec![1.0, 4.0, 9.0]);
    assert_eq!(floats(&function_samples(Some(square), 0, true, &n)), vec![0.0]);
    assert_eq!(function_samples(Some(square), 0, false, &n), Vec::<u64>::new());
}

#[test]
fn function_samples_asks_for_the_times_in_order() {
    let n = numerics();
    let asked = std::cell::RefCell::new(Vec::new());
    let record = |t: u64| {
        asked.borrow_mut().push(f64::from_bits(t));
        t
    };
    function_samples(Some(&record), 3, true, &n);
    assert_eq!(*asked.borrow(), vec![0.0, 1.0, 2.0, 3.0]);
    asked.borrow_mut().clear();
    function_samples(Some(&record), 2, false, &n);
    assert_eq!(*asked.borrow(), vec![1.0, 2.0]);
}

#[test]
fn function_samples_zero_fills_an_unbound_formula() {
    let n = numerics();
    assert_eq!(function_samples(None::<Bound>, 2, true, &n), vec![0, 0]);
    assert_eq!(function_samples(None::<Bound>, 2, false, &n), vec![0, 0]);
    assert_eq!(function_samples(None::<Bound>, 0, true, &n), Vec::<u64>::new());
}

#[test]
fn resample_snaps_to_integer_boundaries() {
    // output every half period over [0, 3]
    let times = bits(&[0.0, 0.5, 1.0, 1.5, 2.0, 2.5, 3.0]);
    let values = bits(&[10.0, 10.5, 11.0, 11.5, 12.0, 12.5, 13.0]);
    let later = resample(&times, &values, false, &numerics());
    assert_eq!(floats(&later), vec![11.0, 12.0, 13.0]);
    let opening = resample(&times, &values, true, &numerics());
    assert_eq!(floats(&opening), vec![10.0, 11.0, 12.0, 13.0]);
}

#[test]
fn resample_takes_the_first_time_within_one_step_of_the_boundary() {
    // x - n > -step with step 0.25: 0.8 reaches boundary 1, 1.0 does not reach 2
    let times = bits(&[0.0, 0.25, 0.8, 1.0, 1.9, 2.0]);
    let values = bits(&[0.0, 1.0, 2.0, 3.0, 4.0, 5.0]);
    let block = resample(&times, &values, false, &numerics());
    assert_eq!(floats(&block), vec![2.0, 4.0]);
}

#[test]
fn resample_with_a_wide_step_takes_every_time() {
    let times = bits(&[0.0, 2.0, 3.0]);
    let values = bits(&[1.0, 2.0, 3.0]);
    let block = resample(&times, &values, false, &numerics());
    assert_eq!(floats(&block), vec![1.0, 2.0, 3.0]);
}

#[test]
fn resample_takes_nothing_from_times_that_are_no_numbers() {
    let times = bits(&[f64::NAN, f64::NAN, f64::NAN]);
    let values = bits(&[1.0, 2.0, 3.0]);
    assert_eq!(resample(&times, &values, true, &numerics()), Vec::<u64>::new());
}

#[test]
fn trajectory_samples_zero_fills_failures_and_short_outputs() {
    let n = numerics();
    assert_eq!(trajectory_samples(None, 3, false, &n), vec![0, 0, 0]);
    assert_eq!(trajectory_samples(Some((vec![], vec![])), 2, true, &n), vec![0, 0]);
    assert_eq!(trajectory_samples(Some((bits(&[0.0]), bits(&[1.0]))), 2, true, &n), vec![0, 0]);
    assert_eq!(
        trajectory_samples(Some((bits(&[0.0, 1.0]), bits(&[1.0]))), 2, false, &n),
        vec![0, 0]
    );
}

#[test]
fn trajectory_samples_resamples_a_sound_output() {
    let n = numerics();
    let outcome = Some((bits(&[0.0, 1.0, 2.0]), bits(&[5.0, 6.0, 7.0])));
    assert_eq!(floats(&trajectory_samples(outcome.clone(), 2, false, &n)), vec![6.0, 7.0]);
    assert_eq!(floats(&trajectory_samples(outcome, 2, true, &n)), vec![5.0, 6.0, 7.0]);
}

#[test]
fn evaluate_segment_dispatches_on_the_kind() {
    let (e, n) = (evaluator(), numerics());
    let step = 1.0f64.to_bits();
    let c = evaluate_segment(ModelKind::Constant, &"7".to_string(), 2, false, ZERO, step, &e, &n);
    assert_eq!(floats(&c), vec![7.0, 7.0]);
    let s = evaluate_segment(
        ModelKind::TimeFunction,
        &"t^2".to_string(),
        3,
        true,
        ZERO,
        step,
        &e,
        &n,
    );
    assert_eq!(floats(&s), vec![0.0, 1.0, 4.0, 9.0]);
    let s = evaluate_segment(
        ModelKind::TimeFunction,
        &"t^2".to_string(),
        3,
        false,
        ZERO,
        step,
        &e,
        &n,
    );
    assert_eq!(floats(&s), vec![1.0, 4.0, 9.0]);
    // dy/dt = 0 keeps the carry-in
    let d = evaluate_segment(
        ModelKind::DifferentialEquation,
        &"0*y".to_string(),
        3,
        false,
        42.0f64.to_bits(),
        step,
        &e,
        &n,
    );
    assert_eq!(floats(&d), vec![42.0, 42.0, 42.0]);
}

#[test]
fn evaluate_segment_zero_fills_what_the_strategy_cannot_bind() {
    let (e, n) = (evaluator(), numerics());
    let step = 1.0f64.to_bits();
    // a constant strategy cannot evaluate a free variable
    let c = evaluate_segment(ModelKind::Constant, &"x".to_string(), 2, true, ZERO, step, &e, &n);
    assert_eq!(c, vec![0, 0]);
    // a time function cannot bind a second variable
    let s =
        evaluate_segment(ModelKind::TimeFunction, &"t+x".to_string(), 2, true, ZERO, step, &e, &n);
    assert_eq!(s, vec![0, 0]);
    // wrong arity of a function
    let d = evaluate_segment(
        ModelKind::DifferentialEquation,
        &"sin(t, y)".to_string(),
        2,
        false,
        ONE,
        step,
        &e,
        &n,
    );
    assert_eq!(d, vec![0, 0]);
}

// ---- the projection ----

#[test]
fn constant_segment_repeats_its_value_behind_the_leading_sample() {
    assert_eq!(project(&[("3", "5")], 0.01), Some(vec![5.0, 5.0, 5.0, 5.0]));
}

#[test]
fn time_function_is_sampled_from_time_zero() {
    assert_eq!(project(&[("2", "2*t")], 0.01), Some(vec![0.0, 2.0, 4.0]));
}

#[test]
fn bad_syntax_is_zero_filled() {
    assert_eq!(
        project(&[("2", "10"), ("5", "bad_syntax(")], 0.01),
        Some(vec![10.0, 10.0, 10.0, 0.0, 0.0, 0.0])
    );
}

#[test]
fn ordering_violation_gives_nothing() {
    assert_eq!(project(&[("1", "5"), ("0", "1")], 0.01), None);
}

#[test]
fn ordering_violation_anywhere_gives_nothing() {
    assert_eq!(project(&[("2", "1"), ("4", "t"), ("3", "1")], 0.01), None);
    assert_eq!(project(&[("2", "1"), ("1", "bad("), ("5", "1")], 0.01), None);
    // an unparseable end counts as 0
    assert_eq!(project(&[("2", "1"), ("x", "1")], 0.01), None);
}

#[test]
fn equal_ends_are_in_order() {
    assert_eq!(project(&[("2", "1"), ("2", "7")], 0.01), Some(vec![1.0, 1.0, 1.0]));
}

#[test]
fn empty_document_projects_an_empty_series() {
    assert_eq!(project(&[], 0.01), Some(vec![]));
}

#[test]
fn unparseable_end_counts_as_zero() {
    assert_eq!(project(&[("", "5")], 0.01), Some(vec![5.0]));
    assert_eq!(project(&[("abc", "t+1")], 0.01), Some(vec![1.0]));
}

#[test]
fn second_segment_restarts_local_time_without_leading_sample() {
    assert_eq!(
        project(&[("2", "2*t"), ("4", "10*t")], 0.01),
        Some(vec![0.0, 2.0, 4.0, 10.0, 20.0])
    );
}

#[test]
fn zero_fill_does_not_emit_the_leading_sample() {
    // the failed first segment emits two zeros, so the next one does not open the series
    assert_eq!(project(&[("2", "bad("), ("4", "3")], 0.01), Some(vec![0.0, 0.0, 3.0, 3.0]));
    // a failed segment without periods leaves the series empty: the next one opens it
    assert_eq!(project(&[("0", "bad("), ("2", "3")], 0.01), Some(vec![3.0, 3.0, 3.0]));
}

#[test]
fn zero_fill_leaves_the_neighbours_alone() {
    assert_eq!(
        project(&[("1", "4"), ("3", "1+"), ("5", "6")], 0.01),
        Some(vec![4.0, 4.0, 0.0, 0.0, 6.0, 6.0])
    );
}

#[test]
fn ode_starts_from_the_last_sample() {
    // dy/dt = 0 carries the last sample on
    assert_eq!(
        project(&[("2", "7"), ("4", "0*y")], 1.0),
        Some(vec![7.0, 7.0, 7.0, 7.0, 7.0])
    );
    // behind a zero-filled segment the carry-in is zero
    assert_eq!(
        project(&[("1", "7"), ("2", "bad("), ("4", "0*y")], 1.0),
        Some(vec![7.0, 7.0, 0.0, 0.0, 0.0])
    );
    // behind a zero-filled segment without periods it is the sample before
    assert_eq!(
        project(&[("1", "7"), ("1", "bad("), ("3", "0*y")], 1.0),
        Some(vec![7.0, 7.0, 7.0, 7.0])
    );
}

#[test]
fn integration_is_asked_with_carry_in_step_and_tolerance() {
    let asked = std::cell::RefCell::new(Vec::new());
    let recording = Evaluator {
        constant,
        bind,
        trajectory: |expr: &String, length: usize, initial: u64, step: u64, tolerance: u64| {
            asked.borrow_mut().push((
                expr.clone(),
                length,
                f64::from_bits(initial),
                f64::from_bits(step),
                f64::from_bits(tolerance),
            ));
            trajectory(expr, length, initial, step, tolerance)
        },
    };
    let list = rows(&[("0", "y"), ("2", "3.5"), ("5", "0*y"), ("6", "y("), ("6", "y+"), ("8", "y-y")]);
    let out = calculate_cashflow(&list, 0.25f64.to_bits(), &recording, &numerics()).unwrap();
    assert_eq!(
        *asked.borrow(),
        vec![
            // nothing was emitted yet: the integration starts from zero
            ("y".to_string(), 0, 0.0, 0.25, 1e-10),
            // the last sample of the constant segment
            ("0*y".to_string(), 3, 3.5, 0.25, 1e-10),
            // a formula that does not parse is handed on all the same, and fails there
            ("y(".to_string(), 1, 3.5, 0.25, 1e-10),
            // behind the zero-filled period the carry-in is zero
            ("y+".to_string(), 0, 0.0, 0.25, 1e-10),
            // a failed segment without periods leaves the carry-in as it was
            ("y-y".to_string(), 2, 0.0, 0.25, 1e-10),
        ]
    );
    assert_eq!(floats(&out), vec![3.5, 3.5, 3.5, 3.5, 3.5, 3.5, 0.0, 0.0, 0.0]);
}

#[test]
fn formulas_are_handed_to_the_strategy_of_their_kind() {
    let asked = std::cell::RefCell::new(Vec::new());
    let recording = Evaluator {
        constant: |expr: &String| {
            asked.borrow_mut().push(format!("constant {}", expr));
            constant(expr)
        },
        bind: |expr: &String| {
            asked.borrow_mut().push(format!("bind {}", expr));
            bind(expr)
        },
        trajectory: |expr: &String, length: usize, initial: u64, step: u64, tolerance: u64| {
            asked.borrow_mut().push(format!("integrate {}", expr));
            trajectory(expr, length, initial, step, tolerance)
        },
    };
    let list = rows(&[("1", "2"), ("2", "t"), ("3", "y"), ("4", "t*y"), ("5", "x")]);
    calculate_cashflow(&list, ONE, &recording, &numerics()).unwrap();
    assert_eq!(
        *asked.borrow(),
        vec!["constant 2", "bind t", "integrate y", "integrate t*y", "constant x"]
    );
}

#[test]
fn ode_opening_the_series_starts_from_zero_and_emits_the_leading_sample() {
    // dy/dt = 1 from y(0) = 0
    let out = project(&[("3", "1+0*y")], 1.0).unwrap();
    assert_eq!(out.len(), 4);
    for (i, v) in out.iter().enumerate() {
        assert!((v - i as f64).abs() < 1e-8, "sample {} is {}", i, v);
    }
}

#[test]
fn ode_exponential_growth() {
    // dy/dt = y from y(0) = 1: e, e^2
    let out = project(&[("1", "1"), ("3", "y")], 0.5).unwrap();
    assert_eq!(out.len(), 4);
    assert_eq!(out[0], 1.0);
    assert_eq!(out[1], 1.0);
    // the samples are read off the dense output, which is less exact than the steps
    assert!((out[2] - 1f64.exp()).abs() < 1e-3, "y(1) is {}", out[2]);
    assert!((out[3] - 2f64.exp()).abs() < 1e-2, "y(2) is {}", out[3]);
}

#[test]
fn ode_with_a_step_wider_than_a_period_misses_boundaries() {
    // the solver puts out the times 0 and 2 only: two samples for three periods
    let list = [("2", "1"), ("5", "0*y")];
    let out = project(&list, 2.0).unwrap();
    assert_eq!(out, vec![1.0, 1.0, 1.0, 1.0, 1.0]);
    assert!(same_bits(&out, &plain_cashflow(&list, "2").unwrap()));
}

#[test]
fn ode_with_a_single_output_time_is_zero_filled() {
    // with a step beyond the end the solver puts out the time 0 alone
    let out = project(&[("2", "1"), ("5", "0*y")], 50.0).unwrap();
    assert_eq!(out, vec![1.0, 1.0, 1.0, 0.0, 0.0, 0.0]);
}

#[test]
fn projection_agrees_with_plain_floating_point() {
    let documents: Vec<(Vec<(&str, &str)>, &str)> = vec![
        (vec![("3", "5")], "0.01"),
        (vec![("2", "2*t")], "0.01"),
        (vec![("2", "10"), ("5", "bad_syntax(")], "0.01"),
        (vec![("1", "5"), ("0", "1")], "0.01"),
        (vec![("2", "100"), ("6", "y*0.1")], "0.01"),
        (vec![("2", "100"), ("6", "y*0.1")], "0.5"),
        (vec![("2", "100"), ("6", "y*0.1")], "1"),
        (vec![("2", "100"), ("6", "y*0.1")], "oops"),
        (vec![("4", "t - y")], "0.01"),
        (vec![("4", "t - y")], "0.3"),
        (vec![("3", "sin(t)"), ("5", "y + t"), ("8", "exp(1)"), ("9", "-y")], "0.25"),
        (vec![("0", "1"), ("0", "t"), ("2", "y")], "0.1"),
        (vec![("2", "x"), ("3", "t*x"), ("5", "y*x"), ("6", "2")], "0.1"),
        (vec![("", "3"), ("2", "t^2"), ("2", "1/0"), ("4", "sqrt(t)")], "0.1"),
        (vec![("3", "1/0")], "0.1"),
        (vec![("3", "0/0")], "0.1"),
        (vec![("2", "1"), ("5", "y^2")], "0.01"),
    ];
    for (list, step_text) in documents {
        let step = step_text.parse::<f64>().unwrap_or(1.0);
        let ours = project(&list, step);
        let plain = plain_cashflow(&list, step_text);
        match (ours, plain) {
            (None, None) => {}
            (Some(a), Some(b)) => {
                assert!(same_bits(&a, &b), "document {:?}: {:?} against {:?}", list, a, b)
            }
            (a, b) => panic!("document {:?}: {:?} against {:?}", list, a, b),
        }
    }
}

#[test]
fn segment_lengths_follow_the_ends() {
    let list = [("2", "1"), ("2", "t"), ("7", "t+1"), ("9", "oops("), ("12", "3")];
    let out = project(&list, 0.01).unwrap();
    // the leading sample and one sample for each of the 12 periods
    assert_eq!(out.len(), 13);
    let out = project(&[("2", "oops("), ("7", "t+1")], 0.01).unwrap();
    assert_eq!(out.len(), 7);
}

// ---- the valuation ----

#[test]
fn dcf_of_an_empty_series_is_empty() {
    assert_eq!(calculate_dcf(&vec![], 1.1f64.to_bits(), &arith), vec![]);
}

#[test]
fn dcf_divides_by_the_running_factor() {
    let cash = bits(&[100.0, 100.0, 100.0]);
    let records = calculate_dcf(&cash, 2.0f64.to_bits(), &arith);
    assert_eq!(
        records,
        vec![
            DcfData {
                period: 0,
                cashflow: 100.0f64.to_bits(),
                dcf_unit: 100.0f64.to_bits(),
                dcf_sum: 100.0f64.to_bits()
            },
            DcfData {
                period: 1,
                cashflow: 100.0f64.to_bits(),
                dcf_unit: 50.0f64.to_bits(),
                dcf_sum: 150.0f64.to_bits()
            },
            DcfData {
                period: 2,
                cashflow: 100.0f64.to_bits(),
                dcf_unit: 25.0f64.to_bits(),
                dcf_sum: 175.0f64.to_bits()
            },
        ]
    );
}

#[test]
fn dcf_agrees_with_plain_floating_point() {
    let cash = [3.5, -2.0, 0.0, 1e12, 7.25, 0.1, 0.2, 0.3];
    for rate in [1.0, 1.03, 1.1, 0.5, 0.0, -1.5] {
        let records = calculate_dcf(&bits(&cash), f64::to_bits(rate), &arith);
        let plain = plain_dcf(&cash, rate);
        assert_eq!(records.len(), plain.len());
        for (i, (r, p)) in records.iter().zip(&plain).enumerate() {
            assert_eq!(r.period, i);
            assert_eq!(r.cashflow, p.0.to_bits());
            assert_eq!(r.dcf_unit, p.1.to_bits());
            assert_eq!(r.dcf_sum, p.2.to_bits());
        }
    }
}

#[test]
fn cumulative_sum_law_on_a_series() {
    let cash = bits(&[10.0, 20.0, 30.0, 40.0]);
    let records = calculate_dcf(&cash, 1.25f64.to_bits(), &arith);
    assert_eq!(records[0].dcf_sum, records[0].dcf_unit);
    for i in 1..records.len() {
        let expected = f64::from_bits(records[i - 1].dcf_sum) + f64::from_bits(records[i].dcf_unit);
        assert_eq!(records[i].dcf_sum, expected.to_bits());
    }
}

#[test]
fn discount_applies_from_period_one() {
    let state = document(&[("1", "100")], "1.02", "1.1", "0.01");
    let result = compute(&state, &evaluator(), &numerics(), &parse).unwrap();
    assert_eq!(floats(&result.cashflow), vec![100.0, 100.0]);
    let records = &result.valuation.dcf_records;
    assert_eq!(records.len(), 2);
    assert_eq!(f64::from_bits(records[0].dcf_unit), 100.0 / 1.0);
    assert_eq!(f64::from_bits(records[0].dcf_sum), 100.0);
    assert_eq!(f64::from_bits(records[1].dcf_unit), 100.0 / 1.1);
    assert_eq!(f64::from_bits(records[1].dcf_sum), 100.0 + 100.0 / 1.1);
    let terminal = (100.0 * 1.02) / (1.1 - 1.02);
    assert_eq!(f64::from_bits(result.valuation.terminal_value), terminal);
    assert_eq!(f64::from_bits(result.valuation.total_value), terminal + (100.0 + 100.0 / 1.1));
}

#[test]
fn terminal_value_is_the_gordon_growth_formula() {
    let records = calculate_dcf(&bits(&[1.0, 50.0]), 1.5f64.to_bits(), &arith);
    let value = terminal_value(&records, 1.25f64.to_bits(), 1.5f64.to_bits(), &arith);
    assert_eq!(f64::from_bits(value), (50.0 * 1.25) / (1.5 - 1.25));
    assert_eq!(f64::from_bits(value), 250.0);
}

#[test]
fn terminal_value_without_periods_is_zero() {
    assert_eq!(terminal_value(&vec![], 1.02f64.to_bits(), 1.1f64.to_bits(), &arith), ZERO);
}

#[test]
fn terminal_value_is_not_guarded_against_a_zero_denominator() {
    let records = calculate_dcf(&bits(&[10.0]), 1.0f64.to_bits(), &arith);
    let value = terminal_value(&records, 1.0f64.to_bits(), 1.0f64.to_bits(), &arith);
    assert_eq!(f64::from_bits(value), f64::INFINITY);
    let records = calculate_dcf(&bits(&[0.0]), 1.0f64.to_bits(), &arith);
    let value = terminal_value(&records, 1.0f64.to_bits(), 1.0f64.to_bits(), &arith);
    assert!(f64::from_bits(value).is_nan());
    let records = calculate_dcf(&bits(&[10.0]), 1.0f64.to_bits(), &arith);
    let value = terminal_value(&records, 2.0f64.to_bits(), 1.0f64.to_bits(), &arith);
    assert_eq!(f64::from_bits(value), -20.0);
}

#[test]
fn valuate_adds_the_terminal_value_to_the_last_sum() {
    let v = valuate(&bits(&[8.0, 8.0]), 1.0f64.to_bits(), 2.0f64.to_bits(), &arith);
    assert_eq!(v.dcf_records.len(), 2);
    assert_eq!(f64::from_bits(v.dcf_records[1].dcf_sum), 12.0);
    assert_eq!(f64::from_bits(v.terminal_value), 8.0);
    assert_eq!(f64::from_bits(v.total_value), 20.0);
    let empty = valuate(&vec![], 1.0f64.to_bits(), 2.0f64.to_bits(), &arith);
    assert!(empty.dcf_records.is_empty());
    assert_eq!(empty.terminal_value, ZERO);
    assert_eq!(f64::from_bits(empty.total_value), 0.0);
}

// ---- parameters, the whole computation, the cache ----

#[test]
fn parameters_fall_back_to_one() {
    let p = ProjectionParameters::from_parsed(None, None, None);
    assert_eq!(p.terminal_growth_rate, ONE);
    assert_eq!(p.discount_rate_per_period, ONE);
    assert_eq!(p.ode_step_size, ONE);
    let p = ProjectionParameters::from_parsed(Some(1), None, Some(3));
    assert_eq!(
        p,
        ProjectionParameters {
            terminal_growth_rate: 1,
            discount_rate_per_period: ONE,
            ode_step_size: 3
        }
    );
}

#[test]
fn parameters_are_read_from_the_document() {
    let state = document(&[], "1.02", "", "0.5");
    let p = resolve_parameters(&state, &parse);
    assert_eq!(f64::from_bits(p.terminal_growth_rate), 1.02);
    assert_eq!(f64::from_bits(p.discount_rate_per_period), 1.0);
    assert_eq!(f64::from_bits(p.ode_step_size), 0.5);
    let state = document(&[], "x", "1.03", ".");
    let p = resolve_parameters(&state, &parse);
    assert_eq!(f64::from_bits(p.terminal_growth_rate), 1.0);
    assert_eq!(f64::from_bits(p.discount_rate_per_period), 1.03);
    assert_eq!(f64::from_bits(p.ode_step_size), 1.0);
}

#[test]
fn compute_gives_nothing_for_segments_out_of_order() {
    let state = document(&[("1", "5"), ("0", "1")], "1.02", "1.03", "0.01");
    assert_eq!(compute(&state, &evaluator(), &numerics(), &parse), None);
}

#[test]
fn compute_uses_the_step_of_the_document() {
    for step in ["0.01", "0.5", "1", "bad"] {
        let list = [("1", "2"), ("4", "y/2")];
        let state = document(&list, "1.02", "1.03", step);
        let result = compute(&state, &evaluator(), &numerics(), &parse).unwrap();
        let plain = plain_cashflow(&list, step).unwrap();
        assert!(same_bits(&floats(&result.cashflow), &plain), "step {:?}", step);
    }
}

#[test]
fn compute_of_an_empty_document() {
    let state = StateData::default();
    let result = compute(&state, &evaluator(), &numerics(), &parse).unwrap();
    assert!(result.cashflow.is_empty());
    assert!(result.valuation.dcf_records.is_empty());
    assert_eq!(result.valuation.terminal_value, ZERO);
    assert_eq!(f64::from_bits(result.valuation.total_value), 0.0);
}

#[test]
fn recomputing_an_unchanged_document_gives_the_same_result() {
    let state = document(
        &[("2", "100"), ("4", "t*3"), ("5", "nope("), ("9", "y*0.05 + t")],
        "1.02",
        "1.07",
        "0.01",
    );
    let first = compute(&state, &evaluator(), &numerics(), &parse);
    let second = compute(&state, &evaluator(), &numerics(), &parse);
    assert!(first.is_some());
    assert_eq!(first, second);
}

#[test]
fn cache_is_filled_by_the_first_refresh() {
    let mut cache = ResultCache::new();
    assert!(!cache.is_valid());
    assert!(cache.get().is_none());

    let state = document(&[("3", "5")], "1.02", "1.03", "0.01");
    assert!(!cache.is_current(&state));
    cache.refresh(&state, &evaluator(), &numerics(), &parse);
    assert!(cache.is_valid());
    assert!(cache.is_current(&state));
    let held = cache.get().unwrap().clone();
    assert_eq!(floats(&held.cashflow), vec![5.0, 5.0, 5.0, 5.0]);
    assert_eq!(Some(held), compute(&state, &evaluator(), &numerics(), &parse));
}

#[test]
fn cache_does_not_recompute_an_unchanged_document() {
    let calls = std::cell::Cell::new(0usize);
    let counting = Evaluator {
        constant: |expr: &String| {
            calls.set(calls.get() + 1);
            constant(expr)
        },
        bind,
        trajectory,
    };
    let mut cache = ResultCache::new();
    let mut state = document(&[("3", "5")], "1.02", "1.03", "0.01");
    cache.refresh(&state, &counting, &numerics(), &parse);
    assert_eq!(calls.get(), 1);
    let held = cache.get().unwrap().clone();

    cache.refresh(&state, &counting, &numerics(), &parse);
    cache.refresh(&state.clone(), &counting, &numerics(), &parse);
    assert_eq!(calls.get(), 1);
    assert_eq!(cache.get(), Some(&held));

    // the scale of the chart is no input of the computation
    state.use_log_scale = true;
    cache.refresh(&state, &counting, &numerics(), &parse);
    assert_eq!(calls.get(), 1);
    assert_eq!(cache.get(), Some(&held));
}

#[test]
fn cache_recomputes_after_any_edit() {
    let mut cache = ResultCache::new();
    let mut state = document(&[("3", "5")], "1.02", "1.03", "0.01");
    cache.refresh(&state, &evaluator(), &numerics(), &parse);

    state.rows[0].expr = "6".to_string();
    assert!(!cache.is_current(&state));
    cache.refresh(&state, &evaluator(), &numerics(), &parse);
    assert_eq!(floats(&cache.get().unwrap().cashflow), vec![6.0, 6.0, 6.0, 6.0]);

    state.rows[0].end = "1".to_string();
    cache.refresh(&state, &evaluator(), &numerics(), &parse);
    assert_eq!(floats(&cache.get().unwrap().cashflow), vec![6.0, 6.0]);

    state.discount = "2".to_string();
    assert!(!cache.is_current(&state));
    cache.refresh(&state, &evaluator(), &numerics(), &parse);
    assert_eq!(f64::from_bits(cache.get().unwrap().valuation.dcf_records[1].dcf_unit), 3.0);

    state.growth = "1".to_string();
    assert!(!cache.is_current(&state));
    cache.refresh(&state, &evaluator(), &numerics(), &parse);
    assert_eq!(f64::from_bits(cache.get().unwrap().valuation.terminal_value), 6.0);

    state.ode_step_size = "0.5".to_string();
    assert!(!cache.is_current(&state));

    state.ode_step_size = "0.01".to_string();
    state.push_row();
    assert!(!cache.is_current(&state));
    state.pop_row();
    assert!(cache.is_current(&state));
}

#[test]
fn cache_is_emptied_by_invalidation() {
    let mut cache = ResultCache::new();
    let state = document(&[("3", "5")], "1.02", "1.03", "0.01");
    cache.refresh(&state, &evaluator(), &numerics(), &parse);
    assert!(cache.is_valid());
    cache.invalidate();
    assert!(!cache.is_valid());
    assert!(!cache.is_current(&state));
    assert!(cache.get().is_none());
    cache.refresh(&state, &evaluator(), &numerics(), &parse);
    assert_eq!(floats(&cache.get().unwrap().cashflow), vec![5.0, 5.0, 5.0, 5.0]);
}

#[test]
fn cache_drops_its_result_when_the_segments_fall_out_of_order() {
    let mut cache = ResultCache::new();
    let mut state = document(&[("1", "5"), ("2", "1")], "1.02", "1.03", "0.01");
    cache.refresh(&state, &evaluator(), &numerics(), &parse);
    assert!(cache.is_valid());
    state.rows[1].end = "0".to_string();
    cache.refresh(&state, &evaluator(), &numerics(), &parse);
    assert!(!cache.is_valid());
    assert!(cache.get().is_none());
}

#[test]
fn duplicate_copies_the_document() {
    let mut state = document(&[("3", "5"), ("4", "t")], "1.5", "1.25", "0.125");
    state.use_log_scale = true;
    let copy = state.duplicate();
    assert_eq!(copy, state);
    assert_eq!(state.rows[1].duplicate(), state.rows[1]);
    assert!(copy.reads_as(&state));
}

#[test]
fn reads_as_compares_every_input() {
    let state = document(&[("3", "5"), ("4", "t")], "1.5", "1.25", "0.125");
    assert!(state.reads_as(&state.clone()));
    let mut other = state.clone();
    other.use_log_scale = true;
    assert!(state.reads_as(&other));
    let mut other = state.clone();
    other.rows[1].expr = "t ".to_string();
    assert!(!state.reads_as(&other));
    let mut other = state.clone();
    other.rows[0].end = "03".to_string();
    assert!(!state.reads_as(&other));
    let mut other = state.clone();
    other.rows.pop();
    assert!(!state.reads_as(&other));
    assert!(!other.reads_as(&state));
    let mut other = state.clone();
    other.growth = "1.50".to_string();
    assert!(!state.reads_as(&other));
    let mut other = state.clone();
    other.discount = "".to_string();
    assert!(!state.reads_as(&other));
    let mut other = state.clone();
    other.ode_step_size = "1".to_string();
    assert!(!state.reads_as(&other));
}

#[test]
fn cache_stays_empty_for_segments_out_of_order() {
    let mut cache = ResultCache::new();
    let state = document(&[("1", "5"), ("0", "1")], "1.02", "1.03", "0.01");
    cache.refresh(&state, &evaluator(), &numerics(), &parse);
    assert!(!cache.is_valid());
    assert!(cache.get().is_none());
}
