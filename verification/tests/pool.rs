use concurrency::pool::{
    assign_worker, build_tasks, collect_results, process_task, NUM_THREADS,
};
use concurrency::{multiply, Matrix, MatrixError};

#[test]
fn test_pool_round_trip() {
    let a = Matrix::new(vec![1, 2, 3, 4], 2, 2);
    let b = Matrix::new(vec![5, 6, 7, 8], 2, 2);
    let (msgs, rxs) = build_tasks(&a, &b);
    assert_eq!(msgs.len(), 4);
    assert_eq!(rxs.len(), 4);
    for msg in msgs {
        assert!(process_task(msg).is_ok());
    }
    let m = collect_results(2, 2, rxs).unwrap();
    assert_eq!(m.debug_string(), "Matrix(row=2, col=2, {19 22, 43 50})");
}

#[test]
fn test_pool_round_trip_matches_multiply() {
    let a = Matrix::new(vec![3, -1, 0, 2, 5, 7], 3, 2);
    let b = Matrix::new(vec![2, 4, -6, 1], 2, 2);
    let (msgs, rxs) = build_tasks(&a, &b);
    for msg in msgs {
        assert!(process_task(msg).is_ok());
    }
    let pooled = collect_results(3, 2, rxs).unwrap();
    let direct = multiply(&a, &b).unwrap();
    assert_eq!(pooled.debug_string(), direct.debug_string());
}

#[test]
fn test_collect_fails_when_reply_never_comes() {
    let a = Matrix::new(vec![1, 2, 3, 4], 2, 2);
    let b = Matrix::new(vec![5, 6, 7, 8], 2, 2);
    let (msgs, rxs) = build_tasks(&a, &b);
    drop(msgs);
    assert!(matches!(
        collect_results(2, 2, rxs),
        Err(MatrixError::WorkerCommunicationFailure)
    ));
}

#[test]
fn test_task_payloads() {
    let a = Matrix::new(vec![1, 2, 3, 4, 5, 6], 2, 3);
    let b = Matrix::new(vec![7, 8, 9, 10, 11, 12], 3, 2);
    let (msgs, _rxs) = build_tasks(&a, &b);
    assert_eq!(msgs.len(), 4);
    for (k, msg) in msgs.iter().enumerate() {
        assert_eq!(msg.input.idx, k);
        assert_eq!(msg.input.row.len(), 3);
        assert_eq!(msg.input.col.len(), 3);
    }
    assert_eq!(msgs[3].input.row.get(0), 4);
    assert_eq!(msgs[3].input.col.get(0), 8);
}

#[test]
fn test_assign_worker_rule() {
    assert_eq!(NUM_THREADS, 4);
    for idx in 0..20usize {
        let w = assign_worker(idx);
        assert_eq!(w, idx % NUM_THREADS);
        assert!(w < NUM_THREADS);
    }
}
