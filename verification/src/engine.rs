//! The multiply engine: shape validation, decomposition of the output into
//! one dot-product task per cell, deterministic worker selection, reply
//! recording, and assembly of the result.
//!
//! `multiply` runs the whole pipeline in place and is verified end to end.
//! The same decomposition is exposed piecewise (`plan_tasks`, `worker_of`,
//! `run_task`, `submit_task`, `worker_step`, `record_reply`) so that an
//! unverified caller can distribute the tasks over a pool of worker threads:
//! every decision the engine makes is taken by a verified function, and only
//! the thread and channel plumbing stays outside.

use crate::error::MatrixError;
use crate::matrix::{
    ints, lemma_flat_index_injective, lemma_result_is_product, product_data, Matrix, MatrixView,
};
use crate::vector::{dot, dot_fits, dot_product, Vector};
use vstd::arithmetic::div_mod::lemma_fundamental_div_mod_converse;
use vstd::prelude::*;

verus! {

/// The size of the worker pool that a parallel caller spins up per call.
pub const NUM_THREADS: usize = 4;

/// One unit of work: compute the dot product of `row` and `col` and deliver
/// it tagged with the flattened output index `idx`.
pub struct MsgInput {
    pub idx: usize,
    pub row: Vector,
    pub col: Vector,
}

impl MsgInput {
    /// Bundles an output index with the row and column it is computed from.
    pub fn new(idx: usize, row: Vector, col: Vector) -> (r: MsgInput)
        ensures
            r.idx == idx,
            r.row == row,
            r.col == col,
    {
        MsgInput { idx, row, col }
    }
}

/// One task's result: the computed scalar, tagged with the output index it
/// belongs at. Exactly one is produced per task.
#[derive(Clone, Copy, Debug, PartialEq, Eq, Structural)]
pub struct MsgOutput {
    pub idx: usize,
    pub value: i64,
}

/// The sending half of `oneshot`'s single-use channel, declared so that a
/// task can carry it; opaque here.
#[verifier::external_type_specification]
#[verifier::external_body]
#[verifier::reject_recursive_types(T)]
pub struct ExSender<T>(oneshot::Sender<T>);

/// The sending half of `std::sync::mpsc`'s queue, declared so that task
/// submission can take one; opaque here.
#[verifier::external_type_specification]
#[verifier::external_body]
#[verifier::reject_recursive_types(T)]
pub struct ExQueueSender<T>(std::sync::mpsc::Sender<T>);

/// A task bundled with the sending half of its single-use reply channel.
pub struct Msg {
    pub input: MsgInput,
    pub sender: oneshot::Sender<MsgOutput>,
}

impl Msg {
    /// Bundles a task with the reply channel its result is sent on.
    pub fn new(input: MsgInput, sender: oneshot::Sender<MsgOutput>) -> (r: Msg)
        ensures
            r.input == input,
            r.sender == sender,
    {
        Msg { input, sender }
    }
}

/// Relies on `oneshot::Sender::send`: delivers the result to the paired
/// receiver, and returns an error exactly when the receiver is already gone.
/// Whether delivery succeeded is all it reports.
#[verifier::external_body]
fn send_reply(sender: oneshot::Sender<MsgOutput>, out: MsgOutput) -> (r: bool) {
    sender.send(out).is_ok()
}

/// Relies on `std::sync::mpsc::Sender::send`: queues the message for the
/// receiving worker, and returns an error exactly when the receiver has
/// disconnected. Whether queueing succeeded is all it reports.
#[verifier::external_body]
fn queue_send(sender: &std::sync::mpsc::Sender<Msg>, msg: Msg) -> (r: bool) {
    sender.send(msg).is_ok()
}

/// The worker a task is dispatched to: round robin over the flattened
/// output index. Not true load balancing, but deterministic and
/// reproducible, which the engine's tests depend on.
pub fn worker_of(idx: usize, workers: usize) -> (r: usize)
    requires
        workers > 0,
    ensures
        r == idx % workers,
{
    idx % workers
}

/// Computes one task: the dot product of its row and column, tagged with
/// its output index. Fails with `DimensionMismatch` exactly when the two
/// lengths differ; the engine's own tasks never do.
pub fn run_task(input: MsgInput) -> (r: Result<MsgOutput, MatrixError>)
    requires
        input.row@.len() == input.col@.len() ==> dot_fits(input.row@, input.col@),
    ensures
        input.row@.len() == input.col@.len() ==> (r matches Ok(o) && o.idx == input.idx
            && o.value as int == dot(input.row@, input.col@)),
        input.row@.len() != input.col@.len() ==> r == Err::<MsgOutput, MatrixError>(
            (MatrixError::DimensionMismatch {
                a_len: input.row@.len() as usize,
                b_len: input.col@.len() as usize,
            }),
        ),
{
    let MsgInput { idx, row, col } = input;
    match dot_product(row, col) {
        Ok(value) => Ok(MsgOutput { idx, value }),
        Err(e) => Err(e),
    }
}

/// One turn of a worker's loop: compute the task and send the tagged result
/// back on the task's own reply channel. `Ok` carries whether the reply was
/// delivered; a dot-product failure is reported as the error without
/// stopping the worker that called this.
pub fn worker_step(msg: Msg) -> (r: Result<bool, MatrixError>)
    requires
        msg.input.row@.len() == msg.input.col@.len() ==> dot_fits(msg.input.row@, msg.input.col@),
    ensures
        msg.input.row@.len() == msg.input.col@.len() ==> r is Ok,
        msg.input.row@.len() != msg.input.col@.len() ==> r == Err::<bool, MatrixError>(
            (MatrixError::DimensionMismatch {
                a_len: msg.input.row@.len() as usize,
                b_len: msg.input.col@.len() as usize,
            }),
        ),
{
    let Msg { input, sender } = msg;
    match run_task(input) {
        Ok(out) => Ok(send_reply(sender, out)),
        Err(e) => Err(e),
    }
}

/// Hands one task message to a worker's queue. When the queue is closed
/// (its worker is gone) the submission fails with `WorkerUnavailable`
/// rather than dropping the task silently: a dropped task would stall the
/// collection step forever.
pub fn submit_task(sender: &std::sync::mpsc::Sender<Msg>, msg: Msg) -> (r: Result<(), MatrixError>)
    ensures
        r is Err ==> r == Err::<(), MatrixError>(MatrixError::WorkerUnavailable),
{
    if queue_send(sender, msg) {
        Ok(())
    } else {
        Err(MatrixError::WorkerUnavailable)
    }
}

/// Writes one task reply into the output buffer at the index the reply
/// carries; out-of-order completion across workers is harmless. A missing
/// reply (`None`: the task's channel was dropped without a result, the
/// worker having crashed) fails with `WorkerCrashed` and leaves the buffer
/// unchanged.
pub fn record_reply(buf: &mut Vec<i64>, reply: Option<MsgOutput>) -> (r: Result<(), MatrixError>)
    requires
        reply matches Some(o) ==> o.idx < old(buf)@.len(),
    ensures
        match reply {
            Some(o) => r == Ok::<(), MatrixError>(()) && final(buf)@ == old(buf)@.update(
                o.idx as int,
                o.value,
            ),
            None => r == Err::<(), MatrixError>(MatrixError::WorkerCrashed) && final(buf)@ == old(
                buf,
            )@,
        },
{
    match reply {
        Some(o) => {
            buf[o.idx] = o.value;
            Ok(())
        },
        None => Err(MatrixError::WorkerCrashed),
    }
}

/// Whether `task` is the `t`-th task of the decomposition of `a * b`: its
/// index is `t`, its row is row `t / n` of `a` and its column is column
/// `t % n` of `b`, where `n` is the output's column count.
pub open spec fn task_planned(a: MatrixView, b: MatrixView, task: MsgInput, t: int) -> bool {
    &&& task.idx == t
    &&& task.row@ == a.row_seq(t / b.cols as int)
    &&& task.col@ == b.col_seq(t % b.cols as int)
}

/// Decomposes the output of `a * b` into one task per cell, in row-major
/// submission order: task `t` carries output index `t`, row `t / n` of `a`
/// and column `t % n` of `b`.
pub fn plan_tasks(a: &Matrix, b: &Matrix) -> (r: Vec<MsgInput>)
    requires
        a@.cols == b@.rows,
        a@.rows * b@.cols <= usize::MAX,
    ensures
        r@.len() == a@.rows * b@.cols,
        forall|t: int| 0 <= t < r@.len() ==> task_planned(a@, b@, #[trigger] r@[t], t),
{
    let m: usize = a.rows();
    let n: usize = b.cols();
    let mut tasks: Vec<MsgInput> = Vec::new();
    let mut i: usize = 0;
    while i < m
        invariant
            m == a@.rows,
            n == b@.cols,
            a@.cols == b@.rows,
            m * n <= usize::MAX,
            i <= m,
            tasks@.len() == i * n,
            forall|t: int| 0 <= t < tasks@.len() ==> task_planned(a@, b@, #[trigger] tasks@[t], t),
        decreases m - i,
    {
        let mut j: usize = 0;
        proof {
            assert((i + 1) * n <= m * n && i * n + n == (i + 1) * n) by (nonlinear_arith)
                requires
                    i < m,
                    0 <= n,
            ;
        }
        while j < n
            invariant
                m == a@.rows,
                n == b@.cols,
                a@.cols == b@.rows,
                m * n <= usize::MAX,
                i < m,
                j <= n,
                i * n + n <= m * n,
                tasks@.len() == i * n + j,
                forall|t: int| 0 <= t < tasks@.len() ==> task_planned(
                    a@,
                    b@,
                    #[trigger] tasks@[t],
                    t,
                ),
            decreases n - j,
        {
            let idx: usize = i * n + j;
            let task = MsgInput::new(idx, a.row_vector(i), b.col_vector(j));
            proof {
                lemma_fundamental_div_mod_converse(idx as int, n as int, i as int, j as int);
            }
            tasks.push(task);
            j = j + 1;
        }
        i = i + 1;
    }
    tasks
}

/// Everything `multiply(a, b)` will accumulate stays within `i64`: every
/// row-by-column dot product of the two operands fits. The element type
/// neither saturates nor widens, so keeping this is the caller's
/// responsibility.
pub open spec fn mul_fits(a: MatrixView, b: MatrixView) -> bool {
    forall|i: int, j: int|
        0 <= i < a.rows && 0 <= j < b.cols ==> dot_fits(#[trigger] a.row_seq(i), #[trigger] b.col_seq(j))
}

/// Multiplies two matrices: validates shape compatibility, decomposes the
/// output into one dot-product task per cell, computes every task, records
/// each reply at the index it carries, and assembles the result.
///
/// Returns the `a@.rows × b@.cols` product exactly when `a@.cols ==
/// b@.rows`, and fails with `ShapeMismatch`, naming the two extents, before
/// any task is built otherwise.
pub fn multiply(a: &Matrix, b: &Matrix) -> (r: Result<Matrix, MatrixError>)
    requires
        a@.rows * b@.cols <= usize::MAX,
        mul_fits(a@, b@),
    ensures
        a@.cols == b@.rows ==> (r matches Ok(res) && res@.wf() && res@.rows == a@.rows
            && res@.cols == b@.cols && (forall|i: int, j: int|
            0 <= i < a@.rows && 0 <= j < b@.cols ==> #[trigger] res@.ent(i, j) as int == dot(
                a@.row_seq(i),
                b@.col_seq(j),
            )) && ints(res@.data) == product_data(
            ints(a@.data),
            ints(b@.data),
            a@.rows,
            a@.cols,
            b@.cols,
        )),
        a@.cols != b@.rows ==> r == Err::<Matrix, MatrixError>(
            (MatrixError::ShapeMismatch { a_cols: a@.cols as usize, b_rows: b@.rows as usize }),
        ),
{
    if a.cols() != b.rows() {
        return Err(MatrixError::ShapeMismatch { a_cols: a.cols(), b_rows: b.rows() });
    }
    let m: usize = a.rows();
    let n: usize = b.cols();
    let total: usize = m * n;
    let mut buf: Vec<i64> = vec![0i64; total];
    let mut i: usize = 0;
    while i < m
        invariant
            m == a@.rows,
            n == b@.cols,
            a@.cols == b@.rows,
            total == m * n,
            mul_fits(a@, b@),
            i <= m,
            buf@.len() == total,
            forall|i0: int, j0: int|
                0 <= i0 && 0 <= j0 < n && (i0 < i) ==> #[trigger] buf@[i0 * n + j0] as int == dot(
                    a@.row_seq(i0),
                    b@.col_seq(j0),
                ),
        decreases m - i,
    {
        let mut j: usize = 0;
        proof {
            assert((i + 1) * n <= m * n && i * n + n == (i + 1) * n) by (nonlinear_arith)
                requires
                    i < m,
                    0 <= n,
            ;
        }
        while j < n
            invariant
                m == a@.rows,
                n == b@.cols,
                a@.cols == b@.rows,
                total == m * n,
                mul_fits(a@, b@),
                i < m,
                j <= n,
                i * n + n <= m * n,
                buf@.len() == total,
                forall|i0: int, j0: int|
                    0 <= i0 && 0 <= j0 < n && (i0 < i || (i0 == i && j0 < j))
                        ==> #[trigger] buf@[i0 * n + j0] as int == dot(
                        a@.row_seq(i0),
                        b@.col_seq(j0),
                    ),
            decreases n - j,
        {
            let idx: usize = i * n + j;
            let input = MsgInput::new(idx, a.row_vector(i), b.col_vector(j));
            let out = match run_task(input) {
                Ok(o) => o,
                Err(e) => {
                    proof {
                        assert(false);
                    }
                    return Err(e);
                },
            };
            let ghost prev = buf@;
            match record_reply(&mut buf, Some(out)) {
                Ok(()) => {},
                Err(e) => {
                    proof {
                        assert(false);
                    }
                    return Err(e);
                },
            }
            proof {
                assert forall|i0: int, j0: int|
                    0 <= i0 && 0 <= j0 < n && (i0 < i || (i0 == i && j0 <= j))
                        implies #[trigger] buf@[i0 * n + j0] as int == dot(
                        a@.row_seq(i0),
                        b@.col_seq(j0),
                    ) by {
                    if i0 == i && j0 == j {
                        assert(buf@[idx as int] == out.value);
                    } else {
                        if i0 * n + j0 == idx {
                            lemma_flat_index_injective(n as int, i0, j0, i as int, j as int);
                            assert(false);
                        }
                        assert(i0 * n + j0 < prev.len()) by (nonlinear_arith)
                            requires
                                0 <= i0,
                                0 <= j0 < n,
                                (i0 < i || (i0 == i && j0 <= j)),
                                i < m,
                                j < n,
                                prev.len() == m * n,
                        ;
                        assert(buf@[i0 * n + j0] == prev[i0 * n + j0]);
                    }
                }
            }
            j = j + 1;
        }
        i = i + 1;
    }
    let res = Matrix::new(buf, m, n);
    proof {
        lemma_result_is_product(a@, b@, res@);
    }
    Ok(res)
}

impl Matrix {
    /// The operator form of multiplication: fail-fast where `multiply` is
    /// recoverable. The operands must be compatible; there is no error to
    /// return here.
    pub fn times(&self, rhs: &Matrix) -> (r: Matrix)
        requires
            self@.cols == rhs@.rows,
            self@.rows * rhs@.cols <= usize::MAX,
            mul_fits(self@, rhs@),
        ensures
            r@.wf(),
            r@.rows == self@.rows,
            r@.cols == rhs@.cols,
            forall|i: int, j: int|
                0 <= i < self@.rows && 0 <= j < rhs@.cols ==> #[trigger] r@.ent(i, j) as int == dot(
                    self@.row_seq(i),
                    rhs@.col_seq(j),
                ),
    {
        match multiply(self, rhs) {
            Ok(res) => res,
            Err(_) => {
                proof {
                    assert(false);
                }
                Matrix::new(Vec::new(), 0, 0)
            },
        }
    }
}

} // verus!
