use adbc_cli::{
    aggregate, columnar_row_count, count_rows, json_record_count, Backend, BenchmarkRun, ClientError,
    IterationSample, Progress, QueryOutcome, ResultShape, RunStep,
};

const MS: u64 = 1_000_000;

#[test]
fn three_iterations_summary() {
    let samples = vec![
        IterationSample { nanos: 100 * MS, rows: 5 },
        IterationSample { nanos: 200 * MS, rows: 6 },
        IterationSample { nanos: 300 * MS, rows: 7 },
    ];
    let r = aggregate(Backend::Adbc, &samples).unwrap();
    assert_eq!(r.client, Backend::Adbc);
    assert_eq!(r.iterations, 3);
    assert_eq!(r.total_nanos, 600 * MS as u128);
    assert_eq!(r.avg_nanos, 200 * MS as u128);
    assert_eq!(r.min_nanos, 100 * MS);
    assert_eq!(r.max_nanos, 300 * MS);
    assert_eq!(r.rows, Some(7));
}

#[test]
fn average_rounds_down_and_lies_between_extrema() {
    let samples = vec![
        IterationSample { nanos: 7, rows: 1 },
        IterationSample { nanos: 2, rows: 1 },
        IterationSample { nanos: 4, rows: 1 },
    ];
    let r = aggregate(Backend::ApiJson, &samples).unwrap();
    assert_eq!(r.total_nanos, 13);
    assert_eq!(r.avg_nanos, 4);
    assert!(r.min_nanos as u128 <= r.avg_nanos && r.avg_nanos <= r.max_nanos as u128);
    assert_eq!((r.min_nanos, r.max_nanos), (2, 7));
}

#[test]
fn large_durations_do_not_overflow() {
    let samples = vec![IterationSample { nanos: u64::MAX, rows: 0 }; 3];
    let r = aggregate(Backend::Adbc, &samples).unwrap();
    assert_eq!(r.total_nanos, 3 * u64::MAX as u128);
    assert_eq!(r.avg_nanos, u64::MAX as u128);
}

#[test]
fn zero_iterations_fail() {
    assert!(matches!(aggregate(Backend::Adbc, &vec![]), Err(ClientError::NoIterations)));
    assert!(matches!(BenchmarkRun::new(Backend::Adbc, 0), Err(ClientError::NoIterations)));
}

#[test]
fn run_steps_through_iterations() {
    let mut run = BenchmarkRun::new(Backend::ConnectorRs, 2).unwrap();
    assert!(matches!(run.next_step(), RunStep::Execute { index: 0 }));
    let p = run.record(IterationSample { nanos: 10, rows: 4 });
    assert_eq!(p, Progress { iteration: 1, nanos: 10, rows: Some(4) });
    assert!(matches!(run.next_step(), RunStep::Execute { index: 1 }));
    let p = run.record(IterationSample { nanos: 30, rows: 4 });
    assert_eq!(p, Progress { iteration: 2, nanos: 30, rows: None });
    match run.next_step() {
        RunStep::Finished(r) => {
            assert_eq!(r.client, Backend::ConnectorRs);
            assert_eq!(r.iterations, 2);
            assert_eq!(r.total_nanos, 40);
            assert_eq!(r.avg_nanos, 20);
            assert_eq!(r.rows, Some(4));
        }
        RunStep::Execute { .. } => panic!("run should be finished"),
    }
}

#[test]
fn row_counts_by_shape() {
    assert_eq!(count_rows(&vec![3, 4, 0]), 7);
    assert_eq!(count_rows(&vec![]), 0);
    assert_eq!(count_rows(&vec![u64::MAX, u64::MAX]), 2 * u64::MAX as u128);
    assert_eq!(columnar_row_count(&QueryOutcome::Columnar(vec![2, 5])).unwrap(), 7);
    assert_eq!(columnar_row_count(&QueryOutcome::Empty).unwrap(), 0);
    assert_eq!(json_record_count(&QueryOutcome::JsonArray(5)).unwrap(), 5);
    assert_eq!(json_record_count(&QueryOutcome::JsonValue).unwrap(), 1);
    assert_eq!(json_record_count(&QueryOutcome::Empty).unwrap(), 0);
}

#[test]
fn columnar_backend_refuses_json_result() {
    let e = columnar_row_count(&QueryOutcome::JsonArray(3)).unwrap_err();
    assert!(matches!(e, ClientError::ResultShapeMismatch { expected: ResultShape::Columnar }));
    assert!(e.message().contains("snowflake-api-json"));
    let e = columnar_row_count(&QueryOutcome::JsonValue).unwrap_err();
    assert!(matches!(e, ClientError::ResultShapeMismatch { expected: ResultShape::Columnar }));
}

#[test]
fn json_backend_refuses_columnar_result() {
    let e = json_record_count(&QueryOutcome::Columnar(vec![1])).unwrap_err();
    assert!(matches!(e, ClientError::ResultShapeMismatch { expected: ResultShape::Json }));
    assert_eq!(
        e.message(),
        "Expected JSON result but got Arrow. Use snowflake-api-arrow client for Arrow results, or use a non-SELECT query (like SHOW, DESCRIBE) which typically return JSON"
    );
}
