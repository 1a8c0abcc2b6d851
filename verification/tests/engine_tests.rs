use matrix_engine::{
    dot_product, multiply, plan_tasks, record_reply, run_task, submit_task, worker_of,
    worker_step, Matrix, MatrixError, Msg, MsgInput, MsgOutput, Vector, NUM_THREADS,
};

#[test]
fn test_matrix_multiply() {
    let a = Matrix::new(vec![1, 2, 3, 4, 5, 6], 2, 3);
    let b = Matrix::new(vec![1, 2, 3, 4, 5, 6], 3, 2);
    let c = a.times(&b);
    assert_eq!(c.cols(), 2);
    assert_eq!(c.rows(), 2);
    assert_eq!(c.data(), &vec![22, 28, 49, 64]);
    assert_eq!(c.debug_string(), "Matrix( row: 2, col: 2, {22 28, 49 64})");
}

#[test]
fn test_matrix_display() {
    let a = Matrix::new(vec![1, 2, 3, 4], 2, 2);
    let b = Matrix::new(vec![1, 2, 3, 4], 2, 2);
    let c = a.times(&b);
    assert_eq!(c.data(), &vec![7, 10, 15, 22]);
    assert_eq!(c.display_string(), "{7 10, 15 22}");
}

#[test]
fn test_a_can_not_multiply_b() {
    let a = Matrix::new(vec![1, 2, 3, 4, 5, 6], 2, 3);
    let b = Matrix::new(vec![1, 2, 3, 4], 2, 2);
    let c = multiply(&a, &b);
    assert!(c.is_err());
}

#[test]
fn multiply_reports_the_mismatched_extents() {
    let a = Matrix::new(vec![1, 2, 3, 4, 5, 6], 2, 3);
    let b = Matrix::new(vec![1, 2, 3, 4], 2, 2);
    match multiply(&a, &b) {
        Err(e) => assert_eq!(e, MatrixError::ShapeMismatch { a_cols: 3, b_rows: 2 }),
        Ok(_) => panic!("incompatible shapes were accepted"),
    }
}

#[test]
fn compatible_shapes_give_the_product_shape() {
    let a = Matrix::new(vec![0; 12], 3, 4);
    let b = Matrix::new(vec![0; 20], 4, 5);
    let c = multiply(&a, &b).unwrap();
    assert_eq!(c.rows(), 3);
    assert_eq!(c.cols(), 5);
    assert_eq!(c.data().len(), 15);
}

#[test]
fn dot_product_of_known_vectors() {
    let a = Vector::new(vec![1, 2, 3]);
    let b = Vector::new(vec![4, 5, 6]);
    assert_eq!(dot_product(a, b), Ok(32));
}

#[test]
fn dot_product_of_empty_vectors_is_zero() {
    let a = Vector::new(vec![]);
    let b = Vector::new(vec![]);
    assert_eq!(dot_product(a, b), Ok(0));
}

#[test]
fn dot_product_commutes_under_simultaneous_transpose() {
    let fwd = dot_product(Vector::new(vec![3, -1, 7]), Vector::new(vec![2, 8, -5]));
    let rev = dot_product(Vector::new(vec![2, 8, -5]), Vector::new(vec![3, -1, 7]));
    assert_eq!(fwd, rev);
    assert_eq!(fwd, Ok(3 * 2 + (-1) * 8 + 7 * (-5)));
}

#[test]
fn dot_product_rejects_unequal_lengths() {
    let a = Vector::new(vec![1]);
    let b = Vector::new(vec![1, 2]);
    assert_eq!(
        dot_product(a, b),
        Err(MatrixError::DimensionMismatch { a_len: 1, b_len: 2 })
    );
}

#[test]
fn multiplication_is_associative_on_small_matrices() {
    let a = Matrix::new(vec![1, -2, 3, 4, 0, 5], 2, 3);
    let b = Matrix::new(vec![2, 1, -1, 3, 0, 4, 5, -2, 1, 1, 2, 0], 3, 4);
    let c = Matrix::new(vec![1, 2, -1, 0, 3, 1, 2, 2], 4, 2);
    let ab = multiply(&a, &b).unwrap();
    let bc = multiply(&b, &c).unwrap();
    let left = multiply(&ab, &c).unwrap();
    let right = multiply(&a, &bc).unwrap();
    assert_eq!(left.rows(), right.rows());
    assert_eq!(left.cols(), right.cols());
    assert_eq!(left.data(), right.data());
}

#[test]
fn square_multiply_matches_hand_result() {
    let a = Matrix::new(vec![1, 2, 3, 4], 2, 2);
    let b = Matrix::new(vec![1, 2, 3, 4], 2, 2);
    let c = multiply(&a, &b).unwrap();
    assert_eq!(c.data(), &vec![7, 10, 15, 22]);
}

#[test]
fn large_multiply_is_deterministic() {
    let n = 200usize;
    let mut da = Vec::with_capacity(n * n);
    let mut db = Vec::with_capacity(n * n);
    for i in 0..n {
        for j in 0..n {
            da.push(((i + j) % 5) as i64);
            db.push(((i * j) % 7) as i64);
        }
    }
    let a1 = Matrix::new(da.clone(), n, n);
    let b1 = Matrix::new(db.clone(), n, n);
    let first = multiply(&a1, &b1).unwrap();
    let a2 = Matrix::new(da.clone(), n, n);
    let b2 = Matrix::new(db.clone(), n, n);
    let second = multiply(&a2, &b2).unwrap();
    assert_eq!(first.data(), second.data());
    // Spot-check one cell against a direct accumulation.
    let mut expect: i64 = 0;
    for l in 0..n {
        expect += da[3 * n + l] * db[l * n + 17];
    }
    assert_eq!(first.data()[3 * n + 17], expect);
}

#[test]
fn lost_reply_is_a_worker_crash() {
    let mut buf = vec![0i64; 4];
    assert_eq!(record_reply(&mut buf, None), Err(MatrixError::WorkerCrashed));
    assert_eq!(buf, vec![0, 0, 0, 0]);
}

#[test]
fn replies_land_at_their_own_index_in_any_order() {
    let mut buf = vec![0i64; 3];
    assert_eq!(record_reply(&mut buf, Some(MsgOutput { idx: 2, value: 9 })), Ok(()));
    assert_eq!(record_reply(&mut buf, Some(MsgOutput { idx: 0, value: 7 })), Ok(()));
    assert_eq!(record_reply(&mut buf, Some(MsgOutput { idx: 1, value: 8 })), Ok(()));
    assert_eq!(buf, vec![7, 8, 9]);
}

#[test]
fn submission_to_a_closed_queue_is_worker_unavailable() {
    let (tx, rx) = std::sync::mpsc::channel::<Msg>();
    drop(rx);
    let (reply_tx, _reply_rx) = oneshot::channel::<MsgOutput>();
    let input = MsgInput::new(0, Vector::new(vec![1]), Vector::new(vec![2]));
    let msg = Msg::new(input, reply_tx);
    assert_eq!(submit_task(&tx, msg), Err(MatrixError::WorkerUnavailable));
}

#[test]
fn worker_step_delivers_the_tagged_result() {
    let (reply_tx, reply_rx) = oneshot::channel::<MsgOutput>();
    let input = MsgInput::new(5, Vector::new(vec![1, 2]), Vector::new(vec![3, 4]));
    let msg = Msg::new(input, reply_tx);
    assert_eq!(worker_step(msg), Ok(true));
    let out = reply_rx.recv().unwrap();
    assert_eq!(out.idx, 5);
    assert_eq!(out.value, 11);
}

#[test]
fn worker_step_without_a_receiver_reports_no_delivery() {
    let (reply_tx, reply_rx) = oneshot::channel::<MsgOutput>();
    drop(reply_rx);
    let input = MsgInput::new(0, Vector::new(vec![1]), Vector::new(vec![1]));
    let msg = Msg::new(input, reply_tx);
    assert_eq!(worker_step(msg), Ok(false));
}

#[test]
fn run_task_rejects_mismatched_task_dimensions() {
    let input = MsgInput::new(0, Vector::new(vec![1, 2, 3]), Vector::new(vec![1]));
    match run_task(input) {
        Err(MatrixError::DimensionMismatch { a_len, b_len }) => {
            assert_eq!((a_len, b_len), (3, 1));
        }
        other => panic!("expected a dimension mismatch, got {:?}", other),
    }
}

#[test]
fn worker_selection_is_round_robin_over_the_index() {
    assert_eq!(worker_of(0, NUM_THREADS), 0);
    assert_eq!(worker_of(5, NUM_THREADS), 1);
    assert_eq!(worker_of(11, NUM_THREADS), 3);
    assert_eq!(worker_of(12, NUM_THREADS), 0);
}

#[test]
fn planned_tasks_cover_the_output_in_row_major_order() {
    let a = Matrix::new(vec![1, 2, 3, 4, 5, 6], 2, 3);
    let b = Matrix::new(vec![1, 2, 3, 4, 5, 6], 3, 2);
    let tasks = plan_tasks(&a, &b);
    assert_eq!(tasks.len(), 4);
    let mut buf = vec![0i64; 4];
    for (t, task) in tasks.into_iter().enumerate() {
        assert_eq!(task.idx, t);
        let out = run_task(task).unwrap();
        record_reply(&mut buf, Some(out)).unwrap();
    }
    assert_eq!(buf, vec![22, 28, 49, 64]);
}
