use rust_geodistances::convergence::{
    collect_direct, direct_result, Convergence, ConvergenceFailure, IterationControl, Step,
};
use rust_geodistances::displacement::{offset, offset_from_point, Displacement, ShapeError, VectorArg};
use rust_geodistances::settings::{
    workers_count, ExecutionSettings, DEFAULT_WORKERS, LONG_1D_ARRAY, MAX_ITERATIONS,
};

#[test]
fn settings_defaults_and_clamping() {
    let d = ExecutionSettings::default_for(6);
    assert_eq!(d.max_iterations(), MAX_ITERATIONS);
    assert_eq!(d.max_serial_1d_array_len(), LONG_1D_ARRAY);
    assert_eq!(d.workers(), 6);
    let s = ExecutionSettings::new(Some(5), Some(10), Some(0), 6);
    assert_eq!((s.max_iterations(), s.max_serial_1d_array_len(), s.workers()), (5, 10, 1));
    assert_eq!(ExecutionSettings::default_for(0).workers(), 1);
    assert_eq!(ExecutionSettings::new(None, None, Some(3), 6).workers(), 3);
}

#[test]
fn workers_count_falls_back() {
    assert_eq!(workers_count(Some(12)), 12);
    assert_eq!(workers_count(None), DEFAULT_WORKERS);
}

#[test]
fn iteration_converges_early() {
    let mut c = IterationControl::new(3);
    assert_eq!(c.observe(true), Step::Iterate);
    assert_eq!(c.observe(true), Step::Iterate);
    assert_eq!(c.observe(false), Step::Stop(Convergence::Converged { iterations: 2 }));
    assert_eq!(c.iterations(), 2);
}

#[test]
fn iteration_stops_at_the_cap() {
    let mut c = IterationControl::new(2);
    let mut steps = 0;
    loop {
        match c.observe(true) {
            Step::Iterate => steps += 1,
            Step::Stop(outcome) => {
                assert_eq!(outcome, Convergence::MaxIterationsReached);
                break;
            }
        }
    }
    assert_eq!(steps, 2);
}

#[test]
fn direct_problem_reports_non_convergence() {
    assert_eq!(direct_result(4, Convergence::Converged { iterations: 1 }, 10), Ok(4));
    assert_eq!(
        direct_result(4, Convergence::MaxIterationsReached, 10),
        Err(ConvergenceFailure { max_iterations: 10 })
    );
}

#[test]
fn collect_direct_takes_first_failure() {
    let ok: Vec<Result<i32, ConvergenceFailure>> = vec![Ok(1), Ok(2)];
    assert_eq!(collect_direct(ok), Ok(vec![1, 2]));
    let bad = vec![Ok(1), Err(ConvergenceFailure { max_iterations: 3 }), Err(ConvergenceFailure { max_iterations: 4 })];
    assert_eq!(collect_direct(bad), Err(ConvergenceFailure { max_iterations: 3 }));
}

#[test]
fn offset_broadcasts_scalars() {
    let r = offset(3, &VectorArg::Scalar(10), &VectorArg::PerRow(vec![0, 90, 180])).unwrap();
    assert_eq!(
        r,
        vec![
            Displacement { distance: 10, bearing: 0 },
            Displacement { distance: 10, bearing: 90 },
            Displacement { distance: 10, bearing: 180 },
        ]
    );
    assert_eq!(offset(0, &VectorArg::Scalar(1), &VectorArg::Scalar(2)).unwrap(), vec![]);
}

#[test]
fn offset_refuses_wrong_lengths() {
    assert_eq!(
        offset(3, &VectorArg::PerRow(vec![1, 2]), &VectorArg::PerRow(vec![1])),
        Err(ShapeError::LengthMismatch { expected: 3, found: 2 })
    );
    assert_eq!(
        offset(2, &VectorArg::PerRow(vec![1, 2]), &VectorArg::PerRow(vec![1])),
        Err(ShapeError::LengthMismatch { expected: 2, found: 1 })
    );
}

#[test]
fn offset_from_point_counts_vectors() {
    assert_eq!(
        offset_from_point(&VectorArg::Scalar(5), &VectorArg::Scalar(45)).unwrap(),
        vec![Displacement { distance: 5, bearing: 45 }]
    );
    assert_eq!(
        offset_from_point(&VectorArg::Scalar(5), &VectorArg::PerRow(vec![1, 2])).unwrap(),
        vec![Displacement { distance: 5, bearing: 1 }, Displacement { distance: 5, bearing: 2 }]
    );
    assert_eq!(
        offset_from_point(&VectorArg::PerRow(vec![1, 2, 3]), &VectorArg::PerRow(vec![1, 2])),
        Err(ShapeError::LengthMismatch { expected: 3, found: 2 })
    );
}
