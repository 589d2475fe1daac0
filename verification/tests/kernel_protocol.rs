use std::cell::RefCell;

use mdbench::harness::{average_micros, run_timed};
use mdbench::schedule::{step_schedule, StepKind};

#[test]
fn schedule_of_one_timestep_is_one_block() {
    let s = step_schedule(1);
    assert_eq!(
        s,
        vec![StepKind::Predict, StepKind::EvalForces, StepKind::Correct]
    );
}

#[test]
fn schedule_interleaves_force_evaluation() {
    let s = step_schedule(100);
    assert_eq!(s.len(), 300);
    for (k, phase) in s.iter().enumerate() {
        let expected = match k % 3 {
            0 => StepKind::Predict,
            1 => StepKind::EvalForces,
            _ => StepKind::Correct,
        };
        assert_eq!(*phase, expected);
        // A predictor half-step is never directly followed by the corrector.
        if *phase == StepKind::Predict {
            assert_eq!(s[k + 1], StepKind::EvalForces);
            assert_eq!(s[k + 2], StepKind::Correct);
        }
    }
}

#[test]
fn schedule_of_zero_timesteps_is_empty() {
    assert_eq!(step_schedule(0), vec![]);
}

#[test]
fn run_timed_drives_warmup_then_blocks() {
    let log: RefCell<Vec<StepKind>> = RefCell::new(Vec::new());
    let rec = run_timed(42, 2, |phase: StepKind| {
        log.borrow_mut().push(phase);
    });
    assert_eq!(rec.nb_atoms, 42);
    let seen = log.into_inner();
    assert_eq!(
        seen,
        vec![
            StepKind::EvalForces, // untimed warm-up evaluation
            StepKind::Predict,
            StepKind::EvalForces,
            StepKind::Correct,
            StepKind::Predict,
            StepKind::EvalForces,
            StepKind::Correct,
        ]
    );
}

#[test]
fn run_timed_zero_timesteps_reports_zero_cost() {
    let log: RefCell<Vec<StepKind>> = RefCell::new(Vec::new());
    let rec = run_timed(7, 0, |phase: StepKind| {
        log.borrow_mut().push(phase);
    });
    assert_eq!(rec.nb_atoms, 7);
    assert_eq!(rec.runtime_micros, 0);
    // Only the warm-up force evaluation runs; no timestep phases.
    assert_eq!(log.into_inner(), vec![StepKind::EvalForces]);
}

#[test]
fn average_micros_divides_total_by_steps() {
    assert_eq!(average_micros(1000, 100), 10);
    assert_eq!(average_micros(999, 100), 9);
    assert_eq!(average_micros(0, 100), 0);
    assert_eq!(average_micros(17, 1), 17);
}

#[test]
fn average_micros_of_zero_steps_is_zero() {
    assert_eq!(average_micros(5000, 0), 0);
}
