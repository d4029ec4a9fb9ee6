//! The training data loader: where reading starts, and which blend each batch gets.
use crate::numeric::lemma_successor_div_mod;
use crate::steps::TrainingSteps;
use vstd::prelude::*;

verus! {

/// Loads training batches with `dataloader` and asks `wdl` for the blend of each.
pub struct ValueDataLoader<L, W> {
    pub dataloader: L,
    pub steps: TrainingSteps,
    pub threads: usize,
    pub wdl: W,
}

/// What the blend of a batch is chosen by.
#[derive(Clone, Copy, Debug, PartialEq, Eq, Structural)]
pub struct BlendPoint {
    /// Batches already taken from the current superbatch.
    pub batch_no: usize,
    /// The current superbatch, counted from one.
    pub superbatch: usize,
    /// The last superbatch of the run.
    pub end_superbatch: usize,
}

/// A position in the stream of training batches.
pub struct TrainingFeed {
    start_batch: usize,
    steps: TrainingSteps,
    threads: usize,
    batch_no: usize,
    superbatch: usize,
}

/// What a [`TrainingFeed`] holds.
pub ghost struct TrainingFeedView {
    /// The batch at which reading starts.
    pub start_batch: nat,
    pub steps: TrainingSteps,
    pub threads: nat,
    pub cursor: Cursor,
}

/// A batch of the run, by its place in its superbatch and by its superbatch.
pub ghost struct Cursor {
    pub batch_no: nat,
    pub superbatch: nat,
}

/// Where every run starts.
pub open spec fn first_cursor() -> Cursor {
    Cursor { batch_no: 0, superbatch: 1 }
}

/// The batch after `c`, with `per` batches to a superbatch.
pub open spec fn next_cursor(c: Cursor, per: nat) -> Cursor {
    if c.batch_no + 1 == per {
        Cursor { batch_no: 0, superbatch: c.superbatch + 1 }
    } else {
        Cursor { batch_no: c.batch_no + 1, superbatch: c.superbatch }
    }
}

/// Where a run stands after `n` batches.
pub open spec fn cursor_after(n: nat, per: nat) -> Cursor
    decreases n,
{
    if n == 0 {
        first_cursor()
    } else {
        next_cursor(cursor_after((n - 1) as nat, per), per)
    }
}

impl View for TrainingFeed {
    type V = TrainingFeedView;

    closed spec fn view(&self) -> TrainingFeedView {
        TrainingFeedView {
            start_batch: self.start_batch as nat,
            steps: self.steps,
            threads: self.threads as nat,
            cursor: Cursor { batch_no: self.batch_no as nat, superbatch: self.superbatch as nat },
        }
    }
}

impl<L, W> ValueDataLoader<L, W> {
    /// The number of batches before the first superbatch of the run.
    pub open spec fn batches_before_start(&self) -> int {
        self.steps.batches_per_superbatch * (self.steps.start_superbatch - 1)
    }

    /// Starts a run over batches of `batch_size` positions.
    pub fn map_batches(&self, batch_size: usize) -> (r: TrainingFeed)
        requires
            batch_size == self.steps.batch_size,
            self.steps.start_superbatch >= 1,
            self.batches_before_start() <= usize::MAX,
        ensures
            r.wf(),
            r@ == (TrainingFeedView {
                start_batch: self.batches_before_start() as nat,
                steps: self.steps,
                threads: self.threads as nat,
                cursor: first_cursor(),
            }),
            r@.start_batch == self.steps.batches_per_superbatch * (self.steps.start_superbatch - 1),
            r@.cursor.batch_no == 0,
            r@.cursor.superbatch == 1,
    {
        assert(self.steps.batches_per_superbatch * (self.steps.start_superbatch - 1) >= 0)
            by (nonlinear_arith)
            requires
                self.steps.start_superbatch >= 1,
        ;
        let start_batch: usize = self.steps.batches_per_superbatch * (self.steps.start_superbatch
            - 1);
        TrainingFeed {
            start_batch,
            steps: self.steps,
            threads: self.threads,
            batch_no: 0,
            superbatch: 1,
        }
    }
}

impl TrainingFeed {
    /// The place in the superbatch stays below the superbatch's length.
    pub open spec fn wf(&self) -> bool {
        &&& self@.cursor.superbatch >= 1
        &&& self@.cursor.batch_no == 0 || self@.cursor.batch_no
            < self@.steps.batches_per_superbatch
    }

    /// The batch at which reading starts.
    pub fn start_batch(&self) -> (r: usize)
        ensures
            r == self@.start_batch,
    {
        self.start_batch
    }

    /// Positions per batch.
    pub fn batch_size(&self) -> (r: usize)
        ensures
            r == self@.steps.batch_size,
    {
        self.steps.batch_size
    }

    /// Threads to prepare batches with.
    pub fn threads(&self) -> (r: usize)
        ensures
            r == self@.threads,
    {
        self.threads
    }

    /// What the blend of the current batch is chosen by.
    pub fn blend_point(&self) -> (r: BlendPoint)
        ensures
            r.batch_no == self@.cursor.batch_no,
            r.superbatch == self@.cursor.superbatch,
            r.end_superbatch == self@.steps.end_superbatch,
    {
        BlendPoint {
            batch_no: self.batch_no,
            superbatch: self.superbatch,
            end_superbatch: self.steps.end_superbatch,
        }
    }

    /// Moves on to the next batch.
    pub fn advance(&mut self)
        requires
            old(self).wf(),
            old(self)@.steps.batches_per_superbatch > 0,
            next_cursor(
                old(self)@.cursor,
                old(self)@.steps.batches_per_superbatch as nat,
            ).superbatch <= usize::MAX,
        ensures
            final(self).wf(),
            final(self)@ == (TrainingFeedView {
                cursor: next_cursor(
                    old(self)@.cursor,
                    old(self)@.steps.batches_per_superbatch as nat,
                ),
                ..old(self)@
            }),
            old(self)@.cursor.batch_no + 1 < old(self)@.steps.batches_per_superbatch ==> {
                &&& final(self)@.cursor.batch_no == old(self)@.cursor.batch_no + 1
                &&& final(self)@.cursor.superbatch == old(self)@.cursor.superbatch
            },
            old(self)@.cursor.batch_no + 1 == old(self)@.steps.batches_per_superbatch ==> {
                &&& final(self)@.cursor.batch_no == 0
                &&& final(self)@.cursor.superbatch == old(self)@.cursor.superbatch + 1
            },
    {
        self.batch_no = self.batch_no + 1;
        proof {
            let n = self.batch_no as int;
            let per = self.steps.batches_per_superbatch as int;
            assert(n % per == 0 <==> n == per) by (nonlinear_arith)
                requires
                    0 < n <= per,
            ;
        }
        if self.batch_no % self.steps.batches_per_superbatch == 0 {
            self.batch_no = 0;
            self.superbatch = self.superbatch + 1;
        }
    }
}

/// After `n` batches, the place in the superbatch is the remainder of `n` by the superbatch's
/// length and the superbatch is one more than the quotient.
pub proof fn lemma_cursor_after(n: nat, per: nat)
    requires
        per > 0,
    ensures
        cursor_after(n, per).batch_no == n % per,
        cursor_after(n, per).superbatch == 1 + n / per,
    decreases n,
{
    if n == 0 {
        assert(0nat % per == 0 && 0nat / per == 0) by (nonlinear_arith)
            requires
                per > 0,
        ;
    } else {
        let m = (n - 1) as nat;
        lemma_cursor_after(m, per);
        lemma_successor_div_mod(m as int, per as int);
    }
}

} // verus!
