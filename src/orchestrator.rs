//! Fan-in of completion tokens: knows when every launched pipeline is done.
//!
//! Pipelines are launched while discovery runs; the producing side is closed
//! once discovery is exhausted. The run is over when it is closed and as many
//! tokens came back as pipelines were launched.
use vstd::prelude::*;

verus! {

/// The abstract state of a tracker.
pub struct TrackerModel {
    pub launched: nat,
    pub completed: nat,
    pub closed: bool,
}

impl TrackerModel {
    pub open spec fn wf(self) -> bool {
        self.completed <= self.launched
    }

    pub open spec fn finished(self) -> bool {
        self.closed && self.completed == self.launched
    }
}

pub open spec fn initial_tracker() -> TrackerModel {
    TrackerModel { launched: 0, completed: 0, closed: false }
}

/// Counts pipelines launched and completion tokens received.
pub struct CompletionTracker {
    launched: u64,
    completed: u64,
    closed: bool,
}

impl View for CompletionTracker {
    type V = TrackerModel;

    closed spec fn view(&self) -> TrackerModel {
        TrackerModel {
            launched: self.launched as nat,
            completed: self.completed as nat,
            closed: self.closed,
        }
    }
}

impl CompletionTracker {
    /// Nothing launched, producing side open.
    pub fn new() -> (r: CompletionTracker)
        ensures
            r@ == initial_tracker(),
    {
        CompletionTracker { launched: 0, completed: 0, closed: false }
    }

    /// Records that one more pipeline was launched.
    pub fn launch(&mut self)
        requires
            old(self)@.wf(),
            !old(self)@.closed,
            old(self)@.launched < u64::MAX,
        ensures
            final(self)@ == spec_apply(old(self)@, TrackerOp::Launch),
            final(self)@.wf(),
    {
        self.launched = self.launched + 1;
    }

    /// Records that one launched pipeline sent its completion token.
    pub fn record_completion(&mut self)
        requires
            old(self)@.wf(),
            old(self)@.completed < old(self)@.launched,
        ensures
            final(self)@ == spec_apply(old(self)@, TrackerOp::Complete),
            final(self)@.wf(),
    {
        self.completed = self.completed + 1;
    }

    /// Closes the producing side: discovery is exhausted and every pipeline
    /// has been launched.
    pub fn close(&mut self)
        requires
            old(self)@.wf(),
        ensures
            final(self)@ == spec_apply(old(self)@, TrackerOp::Close),
            final(self)@.wf(),
    {
        self.closed = true;
    }

    pub fn is_closed(&self) -> (r: bool)
        ensures
            r == self@.closed,
    {
        self.closed
    }

    /// Pipelines launched so far.
    pub fn launched(&self) -> (r: u64)
        ensures
            r == self@.launched,
    {
        self.launched
    }

    /// Pipelines launched whose token has not arrived yet.
    pub fn outstanding(&self) -> (r: u64)
        requires
            self@.wf(),
        ensures
            r == self@.launched - self@.completed,
    {
        self.launched - self.completed
    }

    /// Whether the run is over: closed, and every launched pipeline done.
    pub fn is_finished(&self) -> (r: bool)
        ensures
            r == self@.finished(),
    {
        self.closed && self.completed == self.launched
    }
}

/// One thing that happens to a tracker.
#[derive(Clone, Copy, Debug, PartialEq, Eq, Structural)]
pub enum TrackerOp {
    Launch,
    Complete,
    Close,
}

pub open spec fn spec_apply(s: TrackerModel, op: TrackerOp) -> TrackerModel {
    match op {
        TrackerOp::Launch => TrackerModel { launched: s.launched + 1, ..s },
        TrackerOp::Complete => TrackerModel { completed: s.completed + 1, ..s },
        TrackerOp::Close => TrackerModel { closed: true, ..s },
    }
}

/// An operation may happen: no launch after the close, and no token from a
/// pipeline that was not launched.
pub open spec fn allowed(s: TrackerModel, op: TrackerOp) -> bool {
    match op {
        TrackerOp::Launch => !s.closed,
        TrackerOp::Complete => s.completed < s.launched,
        TrackerOp::Close => true,
    }
}

pub open spec fn run_ops(ops: Seq<TrackerOp>) -> TrackerModel
    decreases ops.len(),
{
    if ops.len() == 0 {
        initial_tracker()
    } else {
        spec_apply(run_ops(ops.drop_last()), ops.last())
    }
}

pub open spec fn valid_ops(ops: Seq<TrackerOp>) -> bool
    decreases ops.len(),
{
    ops.len() == 0 || (valid_ops(ops.drop_last()) && allowed(run_ops(ops.drop_last()), ops.last()))
}

pub open spec fn count_ops(ops: Seq<TrackerOp>, op: TrackerOp) -> nat
    decreases ops.len(),
{
    if ops.len() == 0 {
        0
    } else {
        count_ops(ops.drop_last(), op) + if ops.last() == op {
            1nat
        } else {
            0nat
        }
    }
}

/// After any allowed interleaving of launches, tokens and the close, the
/// tracker has counted each, and the run is over exactly when the close has
/// happened and the tokens received equal the pipelines launched: not before
/// the last token, and at once when it arrives.
pub proof fn lemma_finished_iff_all_completed(ops: Seq<TrackerOp>)
    requires
        valid_ops(ops),
    ensures
        run_ops(ops).launched == count_ops(ops, TrackerOp::Launch),
        run_ops(ops).completed == count_ops(ops, TrackerOp::Complete),
        run_ops(ops).closed == (count_ops(ops, TrackerOp::Close) > 0),
        run_ops(ops).wf(),
        run_ops(ops).finished() <==> (count_ops(ops, TrackerOp::Close) > 0 && count_ops(
            ops,
            TrackerOp::Complete,
        ) == count_ops(ops, TrackerOp::Launch)),
    decreases ops.len(),
{
    if ops.len() > 0 {
        lemma_finished_iff_all_completed(ops.drop_last());
    }
}

} // verus!
