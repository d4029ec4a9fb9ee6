//! The validation data loader: which window of the validation set an evaluation reads, and how
//! many of the batches on offer it takes.
use crate::numeric::{clamped, larger, saturating_product};
use crate::steps::TrainingSteps;
use vstd::arithmetic::div_mod::{lemma_mod_bound, lemma_small_mod};
use vstd::prelude::*;

verus! {

/// Batches that one evaluation takes.
pub open spec fn evaluation_batches(steps: TrainingSteps) -> int {
    larger(steps.batches_per_superbatch as int, 1)
}

/// Superbatches that one pass over the validation set covers.
pub open spec fn cycle_span(steps: TrainingSteps) -> int {
    clamped(larger(steps.end_superbatch - steps.start_superbatch, 0) + 1)
}

/// Batches in one pass over the validation set.
pub open spec fn cycle_batches(steps: TrainingSteps) -> int {
    clamped(evaluation_batches(steps) * cycle_span(steps))
}

/// Batches before the first superbatch.
pub open spec fn offset_batches(steps: TrainingSteps) -> int {
    clamped(evaluation_batches(steps) * larger(steps.start_superbatch - 1, 0))
}

/// The batch at which the evaluation at position `start` of the cycle starts to read.
pub open spec fn window_start(steps: TrainingSteps, start: int) -> int {
    offset_batches(steps) + start % cycle_batches(steps)
}

/// `steps` with at least one batch to a superbatch.
pub open spec fn with_batches(steps: TrainingSteps) -> TrainingSteps {
    if steps.batches_per_superbatch == 0 {
        TrainingSteps { batches_per_superbatch: 1, ..steps }
    } else {
        steps
    }
}

/// Loads validation batches with `dataloader` and asks `wdl` for the blend of each.
pub struct ValidationDataLoader<L, W> {
    dataloader: L,
    steps: TrainingSteps,
    threads: usize,
    wdl: W,
    max_superbatch: usize,
}

/// What a [`ValidationDataLoader`] holds.
pub ghost struct ValidationDataLoaderView<L, W> {
    pub dataloader: L,
    pub steps: TrainingSteps,
    pub threads: nat,
    pub wdl: W,
    pub max_superbatch: nat,
}

impl<L, W> View for ValidationDataLoader<L, W> {
    type V = ValidationDataLoaderView<L, W>;

    closed spec fn view(&self) -> ValidationDataLoaderView<L, W> {
        ValidationDataLoaderView {
            dataloader: self.dataloader,
            steps: self.steps,
            threads: self.threads as nat,
            wdl: self.wdl,
            max_superbatch: self.max_superbatch as nat,
        }
    }
}

/// A validation batch that is to be prepared and evaluated.
#[derive(Clone, Copy, Debug, PartialEq, Eq, Structural)]
pub struct BatchTicket {
    /// The number of the batch in its evaluation, counted from one.
    pub number: usize,
    /// The place of the batch in its evaluation, counted from zero, by which it is blended.
    pub batch_index: usize,
    /// The superbatch by which the batch is blended.
    pub superbatch: usize,
    /// The last superbatch of the run.
    pub max_superbatch: usize,
    /// Threads to prepare the batch with.
    pub threads: usize,
}

/// The batches of one evaluation, as they are offered.
pub struct BatchFeed {
    start_batch: usize,
    batch_size: usize,
    limit: usize,
    superbatch: usize,
    max_superbatch: usize,
    threads: usize,
    batches_produced: usize,
    should_break: bool,
}

/// What a [`BatchFeed`] holds.
pub ghost struct BatchFeedView {
    /// The batch at which reading starts.
    pub start_batch: nat,
    pub batch_size: nat,
    /// Batches that the evaluation takes at most.
    pub limit: nat,
    pub superbatch: nat,
    pub max_superbatch: nat,
    pub threads: nat,
    /// Batches taken so far.
    pub produced: nat,
    /// Whether the evaluation asked to stop.
    pub stopped: bool,
}

impl View for BatchFeed {
    type V = BatchFeedView;

    closed spec fn view(&self) -> BatchFeedView {
        BatchFeedView {
            start_batch: self.start_batch as nat,
            batch_size: self.batch_size as nat,
            limit: self.limit as nat,
            superbatch: self.superbatch as nat,
            max_superbatch: self.max_superbatch as nat,
            threads: self.threads as nat,
            produced: self.batches_produced as nat,
            stopped: self.should_break,
        }
    }
}

impl BatchFeedView {
    /// Whether no further batch is taken.
    pub open spec fn done(self) -> bool {
        self.stopped || self.produced >= self.limit
    }

    /// The feed after a batch was taken.
    pub open spec fn taken(self) -> BatchFeedView {
        BatchFeedView { produced: self.produced + 1, ..self }
    }

    /// The feed after the evaluation of the last batch answered whether to stop.
    pub open spec fn answered(self, stop: bool) -> BatchFeedView {
        BatchFeedView { stopped: stop, ..self }
    }

    /// The feed after a batch was on offer for each entry of `answers`, where the entry is the
    /// answer that the batch's evaluation gives if the batch is taken.
    pub open spec fn after(self, answers: Seq<bool>) -> BatchFeedView
        decreases answers.len(),
    {
        if answers.len() == 0 {
            self
        } else {
            let before = self.after(answers.drop_last());
            if before.done() {
                before
            } else {
                before.taken().answered(answers.last())
            }
        }
    }
}

impl<L, W> ValidationDataLoader<L, W> {
    /// Evaluations take at least one batch, and the run has a last superbatch.
    pub open spec fn wf(&self) -> bool {
        &&& self@.steps.batches_per_superbatch >= 1
        &&& self@.max_superbatch >= 1
    }

    /// A loader over `steps`. No batches to a superbatch count as one, and so does a run without
    /// a last superbatch.
    pub fn new(
        dataloader: L,
        steps: TrainingSteps,
        threads: usize,
        wdl: W,
        max_superbatch: usize,
    ) -> (r: Self)
        ensures
            r.wf(),
            r@ == (ValidationDataLoaderView {
                dataloader,
                steps: with_batches(steps),
                threads: threads as nat,
                wdl,
                max_superbatch: larger(max_superbatch as int, 1) as nat,
            }),
            r@.steps == (TrainingSteps {
                batches_per_superbatch: if steps.batches_per_superbatch == 0 {
                    1
                } else {
                    steps.batches_per_superbatch
                },
                ..steps
            }),
            r@.max_superbatch == if max_superbatch == 0 {
                1
            } else {
                max_superbatch as int
            },
    {
        let mut steps = steps;
        if steps.batches_per_superbatch == 0 {
            steps.batches_per_superbatch = 1;
        }
        ValidationDataLoader {
            dataloader,
            steps,
            threads,
            wdl,
            max_superbatch: max_superbatch.max(1),
        }
    }

    /// The loader of raw batches.
    pub fn dataloader(&self) -> (r: &L)
        ensures
            *r == self@.dataloader,
    {
        &self.dataloader
    }

    /// The scheduler of blends.
    pub fn wdl(&self) -> (r: &W)
        ensures
            *r == self@.wdl,
    {
        &self.wdl
    }

    /// The extent of the validation set.
    pub fn steps(&self) -> (r: TrainingSteps)
        ensures
            r == self@.steps,
    {
        self.steps
    }

    /// Batches that one evaluation takes.
    pub fn batches_per_evaluation(&self) -> (r: usize)
        ensures
            r == evaluation_batches(self@.steps),
            r >= 1,
            r == self@.steps.batches_per_superbatch || (self@.steps.batches_per_superbatch == 0
                && r == 1),
    {
        self.steps.batches_per_superbatch.max(1)
    }

    /// Batches in one pass over the validation set.
    pub fn batches_per_cycle(&self) -> (r: usize)
        ensures
            r == cycle_batches(self@.steps),
            r >= 1,
            ({
                let steps = self@.steps;
                let each = if steps.batches_per_superbatch == 0 {
                    1int
                } else {
                    steps.batches_per_superbatch as int
                };
                let gap = if steps.start_superbatch < steps.end_superbatch {
                    steps.end_superbatch - steps.start_superbatch
                } else {
                    0
                };
                let span = if gap < usize::MAX {
                    gap + 1
                } else {
                    usize::MAX as int
                };
                r == if each * span <= usize::MAX {
                    each * span
                } else {
                    usize::MAX as int
                }
            }),
    {
        let span: usize = self.steps.end_superbatch.saturating_sub(
            self.steps.start_superbatch,
        ).saturating_add(1).max(1);
        proof {
            lemma_cycle_positive(self.steps);
        }
        saturating_product(self.batches_per_evaluation(), span)
    }

    /// Batches before the first superbatch.
    pub fn start_offset_batches(&self) -> (r: usize)
        ensures
            r == offset_batches(self@.steps),
            ({
                let steps = self@.steps;
                let each = if steps.batches_per_superbatch == 0 {
                    1int
                } else {
                    steps.batches_per_superbatch as int
                };
                let before = if steps.start_superbatch == 0 {
                    0
                } else {
                    steps.start_superbatch - 1
                };
                r == if each * before <= usize::MAX {
                    each * before
                } else {
                    usize::MAX as int
                }
            }),
    {
        saturating_product(
            self.batches_per_evaluation(),
            self.steps.start_superbatch.saturating_sub(1),
        )
    }

    /// Opens the feed of the evaluation that starts at position `start_batch` of the cycle, in
    /// superbatch `current_superbatch`. With empty batches there is nothing to evaluate.
    pub fn map_prepared_batches(&self, start_batch: usize, current_superbatch: usize) -> (r: Option<
        BatchFeed,
    >)
        requires
            self.wf(),
            self@.steps.batch_size != 0 ==> window_start(self@.steps, start_batch as int)
                <= usize::MAX,
        ensures
            r is None <==> self@.steps.batch_size == 0,
            r matches Some(feed) ==> feed@ == (BatchFeedView {
                start_batch: window_start(self@.steps, start_batch as int) as nat,
                batch_size: self@.steps.batch_size as nat,
                limit: self@.steps.batches_per_superbatch as nat,
                superbatch: current_superbatch as nat,
                max_superbatch: self@.max_superbatch,
                threads: self@.threads,
                produced: 0,
                stopped: false,
            }),
    {
        if self.steps.batch_size == 0 {
            return None;
        }
        let cycle: usize = self.batches_per_cycle().max(1);
        let offset: usize = self.start_offset_batches();
        let start: usize = offset + start_batch % cycle;
        Some(
            BatchFeed {
                start_batch: start,
                batch_size: self.steps.batch_size,
                limit: self.steps.batches_per_superbatch,
                superbatch: current_superbatch,
                max_superbatch: self.max_superbatch,
                threads: self.threads,
                batches_produced: 0,
                should_break: false,
            },
        )
    }
}

impl<L: Clone, W: Clone> Clone for ValidationDataLoader<L, W> {
    fn clone(&self) -> (r: Self)
        ensures
            r@.steps == self@.steps,
            r@.threads == self@.threads,
            r@.max_superbatch == self@.max_superbatch,
            cloned(self@.dataloader, r@.dataloader),
            cloned(self@.wdl, r@.wdl),
    {
        ValidationDataLoader {
            dataloader: self.dataloader.clone(),
            steps: self.steps,
            threads: self.threads,
            wdl: self.wdl.clone(),
            max_superbatch: self.max_superbatch,
        }
    }
}

impl BatchFeed {
    /// The batch at which reading starts.
    pub fn start_batch(&self) -> (r: usize)
        ensures
            r == self@.start_batch,
    {
        self.start_batch
    }

    /// Positions per batch.
    pub fn batch_size(&self) -> (r: usize)
        ensures
            r == self@.batch_size,
    {
        self.batch_size
    }

    /// Takes the batch on offer, unless the evaluation has its batches or asked to stop.
    pub fn offer(&mut self) -> (r: Option<BatchTicket>)
        ensures
            r is None <==> old(self)@.done(),
            r is None <==> old(self)@.stopped || old(self)@.produced >= old(self)@.limit,
            r is None ==> final(self)@ == old(self)@,
            r is Some ==> final(self)@ == (BatchFeedView {
                produced: old(self)@.produced + 1,
                ..old(self)@
            }),
            r matches Some(ticket) ==> {
                &&& final(self)@ == old(self)@.taken()
                &&& ticket.number == old(self)@.produced + 1
                &&& ticket.batch_index == old(self)@.produced
                &&& ticket.superbatch == old(self)@.superbatch
                &&& ticket.max_superbatch == old(self)@.max_superbatch
                &&& ticket.threads == old(self)@.threads
            },
    {
        if self.should_break || self.batches_produced >= self.limit {
            return None;
        }
        let batch_index: usize = self.batches_produced;
        self.batches_produced = self.batches_produced + 1;
        Some(
            BatchTicket {
                number: self.batches_produced,
                batch_index,
                superbatch: self.superbatch,
                max_superbatch: self.max_superbatch,
                threads: self.threads,
            },
        )
    }

    /// Notes whether the evaluation of the last batch asked to stop, and says whether the feed is
    /// at its end.
    pub fn deliver(&mut self, should_break: bool) -> (r: bool)
        requires
            !old(self)@.stopped,
        ensures
            final(self)@ == old(self)@.answered(should_break),
            final(self)@ == (BatchFeedView { stopped: should_break, ..old(self)@ }),
            r == final(self)@.done(),
            r == (should_break || old(self)@.produced >= old(self)@.limit),
    {
        self.should_break = should_break;
        should_break || self.batches_produced >= self.limit
    }
}

/// A pass over the validation set is never empty.
pub proof fn lemma_cycle_positive(steps: TrainingSteps)
    ensures
        1 <= cycle_batches(steps) <= usize::MAX,
        0 <= offset_batches(steps) <= usize::MAX,
{
    assert(evaluation_batches(steps) * cycle_span(steps) >= 1) by (nonlinear_arith)
        requires
            evaluation_batches(steps) >= 1,
            cycle_span(steps) >= 1,
    ;
    assert(evaluation_batches(steps) * larger(steps.start_superbatch - 1, 0) >= 0)
        by (nonlinear_arith)
        requires
            evaluation_batches(steps) >= 1,
            larger(steps.start_superbatch - 1, 0) >= 0,
    ;
}

/// The pass over the validation set in numbers: it has the batches of its superbatches from the
/// first to the last, one where the last is not behind the first, follows those of the superbatches
/// before the first, and an evaluation starts as far into it as its position goes round it.
pub proof fn lemma_cycle_in_numbers(steps: TrainingSteps, start: int)
    requires
        steps.batches_per_superbatch > 0,
        steps.start_superbatch > 0,
        start >= 0,
    ensures
        ({
            let each = steps.batches_per_superbatch as int;
            let cycle = if steps.start_superbatch <= steps.end_superbatch {
                each * (steps.end_superbatch - steps.start_superbatch + 1)
            } else {
                each
            };
            let before = each * (steps.start_superbatch - 1);
            &&& evaluation_batches(steps) == each
            &&& cycle_batches(steps) == if cycle <= usize::MAX {
                cycle
            } else {
                usize::MAX as int
            }
            &&& offset_batches(steps) == if before <= usize::MAX {
                before
            } else {
                usize::MAX as int
            }
            &&& cycle <= usize::MAX && before <= usize::MAX ==> window_start(steps, start) == before
                + start % cycle
        }),
{
    let each = steps.batches_per_superbatch as int;
    assert(each * 1 == each);
    assert(evaluation_batches(steps) == each);
}

/// Every evaluation starts inside the pass over the validation set, and where it starts repeats
/// with the length of the pass.
pub proof fn lemma_window_in_cycle(steps: TrainingSteps, start: nat)
    ensures
        offset_batches(steps) <= window_start(steps, start as int) < offset_batches(steps)
            + cycle_batches(steps),
        window_start(steps, start as int + cycle_batches(steps)) == window_start(
            steps,
            start as int,
        ),
        start < cycle_batches(steps) ==> window_start(steps, start as int) == offset_batches(steps)
            + start,
{
    lemma_cycle_positive(steps);
    let cycle = cycle_batches(steps);
    lemma_mod_bound(start as int, cycle);
    vstd::arithmetic::div_mod::lemma_mod_add_multiples_vanish(start as int, cycle);
    if start < cycle {
        lemma_small_mod(start, cycle as nat);
    }
}

/// However many batches are on offer, an evaluation takes them in order until one asks to stop
/// or the limit is reached: no batch before the last one taken asked to stop, and a feed that
/// took fewer batches than were on offer and allowed was asked to.
pub proof fn lemma_feed_after(feed: BatchFeedView, answers: Seq<bool>)
    requires
        feed.produced == 0,
        !feed.stopped,
    ensures
        feed.after(answers).produced <= feed.limit,
        feed.after(answers).produced <= answers.len(),
        forall|i: int|
            0 <= i < feed.after(answers).produced - 1 ==> !(#[trigger] answers[i]),
        feed.after(answers).stopped <==> feed.after(answers).produced > 0
            && answers[feed.after(answers).produced - 1],
        feed.after(answers).produced < feed.limit && feed.after(answers).produced < answers.len()
            ==> feed.after(answers).stopped,
        feed.after(answers) == (BatchFeedView {
            produced: feed.after(answers).produced,
            stopped: feed.after(answers).stopped,
            ..feed
        }),
    decreases answers.len(),
{
    if answers.len() > 0 {
        lemma_feed_after(feed, answers.drop_last());
        let before = feed.after(answers.drop_last());
        assert forall|i: int|
            0 <= i < feed.after(answers).produced - 1 implies !(#[trigger] answers[i]) by {
            assert(answers[i] == answers.drop_last()[i]);
            if !before.done() && before.produced > 0 {
                assert(!answers.drop_last()[before.produced - 1]);
            }
        }
        if before.done() && before.produced > 0 {
            assert(answers[before.produced - 1] == answers.drop_last()[before.produced - 1]);
        }
        if !before.done() {
            assert(before.produced == answers.len() - 1);
        }
    }
}

} // verus!
