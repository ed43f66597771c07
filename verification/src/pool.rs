//! The fan-out/fan-in worker-pool plumbing of the matrix product: work
//! items, the per-task reply channels, the deterministic task-to-worker
//! assignment rule, and the collection of per-cell results.
//!
//! The embedding program spawns the `NUM_THREADS` worker threads and
//! carries each `Msg` to its worker; everything the pipeline computes —
//! task payloads, the dot product of a task, the assembly of replies
//! into the output — lives here.

use vstd::arithmetic::div_mod::lemma_small_mod;
use vstd::prelude::*;

use crate::error::MatrixError;
use crate::matrix::{lemma_row_major_index, Matrix};
use crate::vector::{dot_in_i64, dot_product, Vector};

verus! {

/// The fixed number of worker threads a single `multiply` call spins up.
pub const NUM_THREADS: usize = 4;

/// Relies on the crate `oneshot`: the sending half of a single-use
/// channel that carries exactly one message to its receiver.
#[verifier::external_type_specification]
#[verifier::external_body]
#[verifier::reject_recursive_types(T)]
pub struct ExSender<T>(oneshot::Sender<T>);

/// Relies on the crate `oneshot`: the receiving half of a single-use
/// channel.
#[verifier::external_type_specification]
#[verifier::external_body]
#[verifier::reject_recursive_types(T)]
pub struct ExReceiver<T>(oneshot::Receiver<T>);

/// A work item: an output-cell index together with independent copies of
/// the row of `A` and the column of `B` whose dot product fills that
/// cell. Created once per cell by the dispatcher, consumed exactly once
/// by a worker.
pub struct MsgInput {
    pub idx: usize,
    pub row: Vector,
    pub col: Vector,
}

impl MsgInput {
    pub fn new(idx: usize, row: Vector, col: Vector) -> (m: MsgInput)
        ensures
            m.idx == idx,
            m.row == row,
            m.col == col,
    {
        MsgInput { idx, row, col }
    }
}

/// A finished cell: the output index paired with the computed scalar.
/// Created by a worker, consumed exactly once by the dispatcher.
pub struct MsgOutput {
    pub idx: usize,
    pub value: i64,
}

impl MsgOutput {
    pub fn new(idx: usize, value: i64) -> (m: MsgOutput)
        ensures
            m.idx == idx,
            m.value == value,
    {
        MsgOutput { idx, value }
    }
}

/// A task together with the private reply handle its worker answers on.
pub struct Msg {
    pub input: MsgInput,
    pub sender: oneshot::Sender<MsgOutput>,
}

impl Msg {
    pub fn new(input: MsgInput, sender: oneshot::Sender<MsgOutput>) -> (m: Msg)
        ensures
            m.input == input,
            m.sender == sender,
    {
        Msg { input, sender }
    }
}

/// Relies on `oneshot::channel`: creates a connected sender/receiver
/// pair carrying exactly one message.
#[verifier::external_body]
fn reply_channel() -> (oneshot::Sender<MsgOutput>, oneshot::Receiver<MsgOutput>) {
    oneshot::channel()
}

/// Relies on `oneshot::Sender::send`: delivers the message to the
/// matching receiver, or reports `false` once the receiver is gone.
/// Whether it succeeds depends on the peer thread, so nothing more is
/// promised.
#[verifier::external_body]
fn send_output(tx: oneshot::Sender<MsgOutput>, out: MsgOutput) -> bool {
    tx.send(out).is_ok()
}

/// Relies on `oneshot::Receiver::recv`: blocks until the matching sender
/// delivers its one message, and fails once the sender is dropped
/// without one. What arrives depends on the peer thread; only the shape
/// of the failure is promised.
#[verifier::external_body]
fn recv_output(rx: oneshot::Receiver<MsgOutput>) -> (r: Result<MsgOutput, MatrixError>)
    ensures
        r matches Err(e) ==> e == MatrixError::WorkerCommunicationFailure,
{
    rx.recv().map_err(|_| MatrixError::WorkerCommunicationFailure)
}

/// The deterministic assignment rule: output cell `idx` is routed to
/// worker `idx % NUM_THREADS` — static, load-oblivious sharding.
pub open spec fn assign_spec(idx: int) -> int {
    idx % (NUM_THREADS as int)
}

/// Routes a task to its worker by the static sharding rule; the result
/// always names one of the `NUM_THREADS` workers.
pub fn assign_worker(idx: usize) -> (w: usize)
    ensures
        w == assign_spec(idx as int),
        w < NUM_THREADS,
{
    idx % NUM_THREADS
}

/// Worker `w` is addressed by at least one of the first `n` cell
/// indices.
pub open spec fn worker_has_task(w: int, n: int) -> bool {
    exists|k: int| 0 <= k < n && #[trigger] assign_spec(k) == w
}

/// Law: the pool is fully used. Whenever a call has at least
/// `NUM_THREADS` tasks, the assignment rule addresses every one of the
/// `NUM_THREADS` workers, whatever the matrix size; and by
/// `assign_worker`'s contract no task is ever addressed outside the
/// pool.
pub proof fn lemma_pool_fully_used(n: int)
    requires
        NUM_THREADS <= n,
    ensures
        forall|w: int| 0 <= w < NUM_THREADS ==> #[trigger] worker_has_task(w, n),
{
    assert forall|w: int| 0 <= w < NUM_THREADS implies #[trigger] worker_has_task(w, n) by {
        lemma_small_mod(w as nat, NUM_THREADS as nat);
        assert(assign_spec(w) == w);
    }
}

/// The work item for cell `k` of the product of `a` and `b`: the cell
/// index itself, a copy of row `k / b.cols` of `a`, and a copy of
/// column `k % b.cols` of `b`.
pub open spec fn task_for(m: MsgInput, a: crate::matrix::MatrixView, b: crate::matrix::MatrixView, k: int) -> bool {
    &&& m.idx == k
    &&& m.row@ == a.row_seq(k / b.cols as int)
    &&& m.col@ == b.col_seq(k % b.cols as int)
}

/// Builds the task for output cell `(i, j)`: the row-major cell index, a
/// copy of `a`'s row `i`, a dense copy of `b`'s column `j`, and a fresh
/// private reply channel.
pub fn make_task(a: &Matrix, b: &Matrix, i: usize, j: usize) -> (t: (
    Msg,
    oneshot::Receiver<MsgOutput>,
))
    requires
        a.wf(),
        b.wf(),
        a@.cols == b@.rows,
        i < a@.rows,
        j < b@.cols,
        a@.rows * b@.cols <= usize::MAX,
    ensures
        t.0.input.idx == i * b@.cols + j,
        t.0.input.row@ == a@.row_seq(i as int),
        t.0.input.col@ == b@.col_seq(j as int),
{
    let row = a.row_vector(i);
    let col = b.col_vector(j);
    proof {
        lemma_row_major_index(i as int, j as int, a@.rows as int, b@.cols as int);
    }
    let idx = i * b.cols() + j;
    let (tx, rx) = reply_channel();
    (Msg::new(MsgInput::new(idx, row, col), tx), rx)
}

/// Builds one task per output cell, following the row-major traversal of
/// the output (submission order), paired with the reply handles in the
/// same order: task `k` computes cell `k`.
pub fn build_tasks(a: &Matrix, b: &Matrix) -> (t: (Vec<Msg>, Vec<oneshot::Receiver<MsgOutput>>))
    requires
        a.wf(),
        b.wf(),
        a@.cols == b@.rows,
        a@.rows * b@.cols <= usize::MAX,
    ensures
        t.0@.len() == a@.rows * b@.cols,
        t.1@.len() == a@.rows * b@.cols,
        forall|k: int| 0 <= k < t.0@.len() ==> #[trigger] task_for(t.0@[k].input, a@, b@, k),
{
    let m = a.rows();
    let p = b.cols();
    let mut msgs: Vec<Msg> = Vec::new();
    let mut rxs: Vec<oneshot::Receiver<MsgOutput>> = Vec::new();
    proof {
        assert(0 * p == 0) by (nonlinear_arith);
    }
    for i in 0..m
        invariant
            a.wf(),
            b.wf(),
            a@.cols == b@.rows,
            a@.rows * b@.cols <= usize::MAX,
            m == a@.rows,
            p == b@.cols,
            msgs@.len() == i * p,
            rxs@.len() == i * p,
            forall|k: int| 0 <= k < msgs@.len() ==> #[trigger] task_for(msgs@[k].input, a@, b@, k),
    {
        proof {
            assert(i * p + p <= m * p) by (nonlinear_arith)
                requires
                    0 <= i < m,
                    0 <= p,
            ;
        }
        for j in 0..p
            invariant
                a.wf(),
                b.wf(),
                a@.cols == b@.rows,
                a@.rows * b@.cols <= usize::MAX,
                m == a@.rows,
                p == b@.cols,
                i < m,
                i * p + p <= m * p,
                msgs@.len() == i * p + j,
                rxs@.len() == i * p + j,
                forall|k: int| 0 <= k < msgs@.len() ==> #[trigger] task_for(msgs@[k].input, a@, b@, k),
        {
            let (msg, rx) = make_task(a, b, i, j);
            msgs.push(msg);
            rxs.push(rx);
            proof {
                lemma_row_major_index(i as int, j as int, m as int, p as int);
                assert(task_for(msgs@[(i * p + j) as int].input, a@, b@, (i * p + j) as int));
            }
        }
        proof {
            assert((i + 1) * p == i * p + p) by (nonlinear_arith);
        }
    }
    (msgs, rxs)
}

/// One worker step: compute the dot product of the task's row and column
/// and answer on the task's private reply channel. A failed reply send
/// means the result is no longer wanted; it is swallowed, never fatal to
/// the worker. A dimension mismatch inside a task is a logic-level
/// defect and is propagated as an error for that task.
pub fn process_task(msg: Msg) -> (r: Result<(), MatrixError>)
    requires
        msg.input.row@.len() == msg.input.col@.len() ==> dot_in_i64(msg.input.row@, msg.input.col@),
    ensures
        r is Ok <==> msg.input.row@.len() == msg.input.col@.len(),
        r is Err ==> r == Err::<(), MatrixError>(MatrixError::DimensionMismatch),
{
    let Msg { input, sender } = msg;
    let MsgInput { idx, row, col } = input;
    match dot_product(row, col) {
        Ok(value) => {
            let _delivered = send_output(sender, MsgOutput::new(idx, value));
            Ok(())
        },
        Err(e) => Err(e),
    }
}

/// An all-zero output buffer of `n` cells: the state before any reply
/// has been written.
pub open spec fn zero_buffer(n: int) -> Seq<i64> {
    Seq::new(n as nat, |i: int| 0i64)
}

/// Writes one reply into its own output slot; a reply naming a cell
/// outside the buffer is rejected and the buffer is left unchanged.
pub fn store_reply(data: &mut Vec<i64>, o: MsgOutput) -> (ok: bool)
    ensures
        ok == (o.idx < old(data)@.len()),
        ok ==> final(data)@ == old(data)@.update(o.idx as int, o.value),
        !ok ==> final(data)@ == old(data)@,
{
    if o.idx < data.len() {
        data[o.idx] = o.value;
        true
    } else {
        false
    }
}

/// Gathers one reply per task, polling the handles in submission order,
/// and writes each reply into its own output slot (`store_reply`). On
/// success the output is exactly the zeroed buffer with the received
/// replies applied in arrival order (`apply_outputs`), each within
/// range. The call is all-or-nothing: a reply channel that closes
/// without a result, or a reply naming a cell outside the output, fails
/// the whole collection with `WorkerCommunicationFailure` and no
/// partial matrix escapes. What the replies hold comes from the peer
/// threads, so no more than that is promised.
pub fn collect_results(row: usize, col: usize, receivers: Vec<oneshot::Receiver<MsgOutput>>) -> (r:
    Result<Matrix, MatrixError>)
    requires
        row * col <= usize::MAX,
    ensures
        receivers@.len() == 0 ==> r is Ok,
        match r {
            Ok(m) => m.wf() && m@.rows == row && m@.cols == col && exists|outs: Seq<MsgOutput>|
                #![trigger apply_outputs(zero_buffer(row * col), outs)]
                outs.len() == receivers@.len() && (forall|k: int|
                    0 <= k < outs.len() ==> (#[trigger] outs[k]).idx < row * col)
                    && m@.data == apply_outputs(zero_buffer(row * col), outs),
            Err(e) => e == MatrixError::WorkerCommunicationFailure,
        },
{
    let n = row * col;
    let mut data: Vec<i64> = vec![0i64; n];
    let ghost mut outs: Seq<MsgOutput> = Seq::empty();
    proof {
        assert(data@ =~= zero_buffer(n as int));
        assert(data@ =~= apply_outputs(zero_buffer(n as int), outs));
    }
    let mut rxs = receivers;
    while rxs.len() > 0
        invariant
            data@.len() == n,
            n == row * col,
            outs.len() + rxs@.len() == receivers@.len(),
            forall|k: int| 0 <= k < outs.len() ==> (#[trigger] outs[k]).idx < n,
            data@ == apply_outputs(zero_buffer(n as int), outs),
        decreases rxs@.len(),
    {
        let rx = rxs.remove(0);
        match recv_output(rx) {
            Ok(o) => {
                let ghost prev = outs;
                if store_reply(&mut data, o) {
                    proof {
                        outs = prev.push(o);
                        assert(outs.drop_last() =~= prev);
                        assert(data@ == apply_outputs(zero_buffer(n as int), outs));
                    }
                } else {
                    return Err(MatrixError::WorkerCommunicationFailure);
                }
            },
            Err(e) => {
                return Err(e);
            },
        }
    }
    let result = Matrix::new(data, row, col);
    proof {
        assert(result@.data == apply_outputs(zero_buffer(row * col), outs));
    }
    Ok(result)
}

/// The state of an output buffer after a sequence of replies has been
/// written into it, each at its own cell, in arrival order; replies
/// naming a cell outside the buffer change nothing.
pub open spec fn apply_outputs(s: Seq<i64>, outs: Seq<MsgOutput>) -> Seq<i64>
    decreases outs.len(),
{
    if outs.len() == 0 {
        s
    } else {
        let rest = apply_outputs(s, outs.drop_last());
        let o = outs.last();
        if o.idx < s.len() {
            rest.update(o.idx as int, o.value)
        } else {
            rest
        }
    }
}

/// Some reply in `outs` names cell `c`.
pub open spec fn writes_cell(outs: Seq<MsgOutput>, c: int) -> bool {
    exists|k: int| 0 <= k < outs.len() && (#[trigger] outs[k]).idx == c
}

/// Every reply names a cell of an `n`-cell output and carries the value
/// `f` dictates for that cell, and every cell is named by some reply.
pub open spec fn outputs_complete(outs: Seq<MsgOutput>, n: int, f: spec_fn(int) -> i64) -> bool {
    &&& forall|k: int|
        0 <= k < outs.len() ==> (#[trigger] outs[k]).idx < n && outs[k].value == f(
            outs[k].idx as int,
        )
    &&& forall|c: int| 0 <= c < n ==> #[trigger] writes_cell(outs, c)
}

proof fn lemma_apply_outputs_len(s: Seq<i64>, outs: Seq<MsgOutput>)
    ensures
        apply_outputs(s, outs).len() == s.len(),
    decreases outs.len(),
{
    if outs.len() > 0 {
        lemma_apply_outputs_len(s, outs.drop_last());
    }
}

proof fn lemma_apply_outputs_cell(s: Seq<i64>, outs: Seq<MsgOutput>, f: spec_fn(int) -> i64, c: int)
    requires
        forall|k: int|
            0 <= k < outs.len() ==> (#[trigger] outs[k]).idx < s.len() && outs[k].value == f(
                outs[k].idx as int,
            ),
        0 <= c < s.len(),
    ensures
        apply_outputs(s, outs)[c] == (if writes_cell(outs, c) {
            f(c)
        } else {
            s[c]
        }),
    decreases outs.len(),
{
    lemma_apply_outputs_len(s, outs);
    if outs.len() == 0 {
        assert(!writes_cell(outs, c));
    } else {
        let prefix = outs.drop_last();
        let o = outs.last();
        lemma_apply_outputs_len(s, prefix);
        lemma_apply_outputs_cell(s, prefix, f, c);
        assert(outs[outs.len() - 1] == o);
        if o.idx == c {
            assert(writes_cell(outs, c));
        } else {
            if writes_cell(prefix, c) {
                let k = choose|k: int| 0 <= k < prefix.len() && (#[trigger] prefix[k]).idx == c;
                assert(outs[k].idx == c);
                assert(writes_cell(outs, c));
            }
            if writes_cell(outs, c) {
                let k = choose|k: int| 0 <= k < outs.len() && (#[trigger] outs[k]).idx == c;
                assert(k < outs.len() - 1);
                assert(prefix[k].idx == c);
                assert(writes_cell(prefix, c));
            }
        }
    }
}

/// Law: the order in which per-cell replies arrive cannot affect the
/// assembled output. Whenever the replies cover every cell of an
/// `n`-cell buffer and each carries the value its own cell index
/// dictates, writing them in any arrival order yields the same buffer:
/// the one the cell rule dictates, cell by cell.
pub proof fn lemma_collect_order_irrelevant(
    s: Seq<i64>,
    outs: Seq<MsgOutput>,
    n: int,
    f: spec_fn(int) -> i64,
)
    requires
        s.len() == n,
        outputs_complete(outs, n, f),
    ensures
        apply_outputs(s, outs) == Seq::new(n as nat, f),
{
    lemma_apply_outputs_len(s, outs);
    assert forall|c: int| 0 <= c < n implies apply_outputs(s, outs)[c] == f(c) by {
        lemma_apply_outputs_cell(s, outs, f, c);
        assert(writes_cell(outs, c));
    }
    assert(apply_outputs(s, outs) =~= Seq::new(n as nat, f));
}

/// Law: any two complete reply sets for the same cell rule assemble to
/// the same output, whatever the two arrival orders were.
pub proof fn lemma_collect_deterministic(
    s: Seq<i64>,
    outs1: Seq<MsgOutput>,
    outs2: Seq<MsgOutput>,
    n: int,
    f: spec_fn(int) -> i64,
)
    requires
        s.len() == n,
        outputs_complete(outs1, n, f),
        outputs_complete(outs2, n, f),
    ensures
        apply_outputs(s, outs1) == apply_outputs(s, outs2),
{
    lemma_collect_order_irrelevant(s, outs1, n, f);
    lemma_collect_order_irrelevant(s, outs2, n, f);
}

} // verus!
