//! A dense-matrix multiplication engine.
//!
//! Matrices are row-major containers of `i64` with a declared shape.
//! Multiplication validates shape compatibility, decomposes the output into
//! independent dot-product tasks (one per output cell), and assembles the
//! result from per-task replies, each carrying its own destination index.
//! The task and reply types let a caller run the same decomposition over a
//! pool of worker threads; the decisions (shape checks, task construction,
//! worker selection, reply recording) are all made here.

pub mod decimal;
pub mod engine;
pub mod error;
pub mod matrix;
pub mod metrics;
pub mod sums;
pub mod vector;

pub use engine::{
    mul_fits, multiply, plan_tasks, record_reply, run_task, submit_task, task_planned, worker_of,
    worker_step, Msg, MsgInput, MsgOutput, NUM_THREADS,
};
pub use error::MatrixError;
pub use matrix::{
    ints, lemma_multiply_deterministic, lemma_product_assoc, lemma_result_is_product,
    product_data, product_entry, Matrix, MatrixView,
};
pub use metrics::{fresh_counters, has_key, key_index, render_chars, AmapMetrics, MetricsError};
pub use vector::{dot, dot_fits, dot_product, lemma_dot_product_commutes, Vector};
