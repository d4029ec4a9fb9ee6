//! Validation during a run: when it is due, what an evaluation adds up, and where the next one
//! starts to read.
use crate::numeric::{larger, lemma_successor_div_mod};
use crate::steps::TrainingSteps;
use crate::text::{decimal, decimal_chars, plain, styled, Line, SpanView, Style};
use crate::validation_loader::{
    cycle_batches, cycle_span, evaluation_batches, lemma_cycle_positive, offset_batches,
    window_start, BatchFeed, BatchFeedView, BatchTicket, ValidationDataLoader,
    ValidationDataLoaderView,
};
use vstd::arithmetic::div_mod::{
    lemma_add_mod_noop_right, lemma_mod_add_multiples_vanish, lemma_mod_bound, lemma_small_mod,
    lemma_truncate_middle,
};
use vstd::prelude::*;

verus! {

/// Runs an evaluation every `frequency` batches, each from where the last one left off.
pub struct ValidationContext<L, W> {
    loader: ValidationDataLoader<L, W>,
    frequency: usize,
    batches_until_eval: usize,
    next_start_batch: usize,
}

/// What a [`ValidationContext`] holds.
pub ghost struct ValidationContextView<L, W> {
    pub loader: ValidationDataLoaderView<L, W>,
    /// Batches from one evaluation to the next; none are due where it is zero.
    pub frequency: nat,
    /// Batches until the next evaluation is due.
    pub until: nat,
    /// Where in the cycle the next evaluation starts.
    pub next_start: nat,
}

impl<L, W> View for ValidationContext<L, W> {
    type V = ValidationContextView<L, W>;

    closed spec fn view(&self) -> ValidationContextView<L, W> {
        ValidationContextView {
            loader: self.loader@,
            frequency: self.frequency as nat,
            until: self.batches_until_eval as nat,
            next_start: self.next_start_batch as nat,
        }
    }
}

/// The countdown with which validation every `frequency` batches starts.
pub open spec fn initial_countdown(frequency: nat) -> nat {
    if frequency == 0 {
        usize::MAX as nat
    } else {
        frequency
    }
}

/// Whether an evaluation is due at the next batch.
pub open spec fn tick_due(frequency: nat, until: nat) -> bool {
    frequency != 0 && until <= 1
}

/// The countdown after the next batch.
pub open spec fn tick_countdown(frequency: nat, until: nat) -> nat {
    if frequency == 0 {
        until
    } else if until <= 1 {
        frequency
    } else {
        (until - 1) as nat
    }
}

/// The countdown after `n` batches.
pub open spec fn countdown_after(frequency: nat, n: nat) -> nat
    decreases n,
{
    if n == 0 {
        initial_countdown(frequency)
    } else {
        tick_countdown(frequency, countdown_after(frequency, (n - 1) as nat))
    }
}

/// Where in a cycle of `cycle` batches the next evaluation starts after one that started at
/// `start` and took `batches`.
pub open spec fn advanced(start: int, batches: int, cycle: int) -> int {
    (start + batches) % cycle
}

/// What one evaluation added up.
#[derive(Clone, Copy, Debug, PartialEq, Eq, Structural)]
pub struct ValidationReport {
    pub batches: usize,
    pub positions: usize,
}

/// The running totals of an evaluation, and the error that ended it, if one did.
pub struct ValidationTally<E> {
    batches: usize,
    positions: usize,
    error: Option<E>,
}

/// What a [`ValidationTally`] holds.
pub ghost struct ValidationTallyView<E> {
    pub batches: nat,
    pub positions: nat,
    pub error: Option<E>,
}

impl<E> View for ValidationTally<E> {
    type V = ValidationTallyView<E>;

    closed spec fn view(&self) -> ValidationTallyView<E> {
        ValidationTallyView {
            batches: self.batches as nat,
            positions: self.positions as nat,
            error: self.error,
        }
    }
}

impl<E> ValidationTallyView<E> {
    /// The totals before the first batch.
    pub open spec fn start() -> Self {
        ValidationTallyView { batches: 0, positions: 0, error: None }
    }

    /// The totals after a batch of `size` positions: empty batches count one position, a failed
    /// batch counts nothing, and after a failure nothing counts.
    pub open spec fn with(self, size: nat, outcome: Result<(), E>) -> Self {
        if self.error is Some {
            self
        } else {
            match outcome {
                Ok(_) => ValidationTallyView {
                    batches: self.batches + 1,
                    positions: self.positions + larger(size as int, 1) as nat,
                    error: None,
                },
                Err(e) => ValidationTallyView { error: Some(e), ..self },
            }
        }
    }
}

/// The positions of batches of the given sizes, where empty batches count one.
pub open spec fn total_positions(sizes: Seq<nat>) -> nat
    decreases sizes.len(),
{
    if sizes.len() == 0 {
        0
    } else {
        total_positions(sizes.drop_last()) + larger(sizes.last() as int, 1) as nat
    }
}

impl<E> ValidationTally<E> {
    /// Every batch counts at least one position.
    pub open spec fn wf(&self) -> bool {
        self@.batches <= self@.positions
    }

    /// Totals of no batches.
    pub fn new() -> (r: Self)
        ensures
            r.wf(),
            r@ == ValidationTallyView::<E>::start(),
            r@.batches == 0,
            r@.positions == 0,
            r@.error is None,
    {
        ValidationTally { batches: 0, positions: 0, error: None }
    }

    /// Counts a batch of `batch_size` positions whose evaluation had the given outcome, and says
    /// whether the evaluation is to stop.
    pub fn record(&mut self, batch_size: usize, outcome: Result<(), E>) -> (stop: bool)
        requires
            old(self).wf(),
            old(self)@.error is None && outcome is Ok ==> old(self)@.positions + larger(
                batch_size as int,
                1,
            ) <= usize::MAX,
        ensures
            final(self).wf(),
            final(self)@ == old(self)@.with(batch_size as nat, outcome),
            stop == (final(self)@.error is Some),
            stop == (old(self)@.error is Some || outcome is Err),
            old(self)@.error is Some ==> final(self)@ == old(self)@,
            old(self)@.error is None ==> match outcome {
                Ok(_) => {
                    &&& final(self)@.batches == old(self)@.batches + 1
                    &&& final(self)@.positions == old(self)@.positions + if batch_size == 0 {
                        1
                    } else {
                        batch_size as int
                    }
                    &&& final(self)@.error is None
                },
                Err(e) => {
                    &&& final(self)@.batches == old(self)@.batches
                    &&& final(self)@.positions == old(self)@.positions
                    &&& final(self)@.error == Some(e)
                },
            },
    {
        if self.error.is_some() {
            return true;
        }
        let size: usize = batch_size.max(1);
        match outcome {
            Ok(_) => {
                self.batches = self.batches + 1;
                self.positions = self.positions + size;
                false
            },
            Err(e) => {
                self.error = Some(e);
                true
            },
        }
    }
}

/// One evaluation under way: the batches on offer, and what those taken have added up.
pub struct ValidationPass<E> {
    feed: BatchFeed,
    tally: ValidationTally<E>,
}

/// What a [`ValidationPass`] holds.
pub ghost struct ValidationPassView<E> {
    pub feed: BatchFeedView,
    pub tally: ValidationTallyView<E>,
}

impl<E> View for ValidationPass<E> {
    type V = ValidationPassView<E>;

    closed spec fn view(&self) -> ValidationPassView<E> {
        ValidationPassView { feed: self.feed@, tally: self.tally@ }
    }
}

impl<E> ValidationPassView<E> {
    /// The evaluation after a batch was taken.
    pub open spec fn taken(self) -> Self {
        ValidationPassView { feed: self.feed.taken(), ..self }
    }

    /// The evaluation after the batch that was taken, of `size` positions, had the given outcome.
    pub open spec fn answered(self, size: nat, outcome: Result<(), E>) -> Self {
        ValidationPassView {
            feed: self.feed.answered(outcome is Err),
            tally: self.tally.with(size, outcome),
        }
    }

    /// The evaluation after a batch was on offer for each entry of `results`, where the entry
    /// holds the size of the batch and the outcome that it has if it is taken.
    pub open spec fn after(self, results: Seq<(nat, Result<(), E>)>) -> Self
        decreases results.len(),
    {
        if results.len() == 0 {
            self
        } else {
            let before = self.after(results.drop_last());
            if before.feed.done() {
                before
            } else {
                before.taken().answered(results.last().0, results.last().1)
            }
        }
    }
}

impl<E> ValidationPass<E> {
    /// Every batch that counts was taken, no more are taken than the evaluation allows, and it
    /// stops exactly for a failure.
    pub open spec fn wf(&self) -> bool {
        &&& self@.tally.batches <= self@.tally.positions
        &&& self@.tally.batches <= self@.feed.produced <= self@.feed.limit
        &&& self@.feed.stopped <==> self@.tally.error is Some
    }

    /// The batch at which reading starts.
    pub fn start_batch(&self) -> (r: usize)
        ensures
            r == self@.feed.start_batch,
    {
        self.feed.start_batch()
    }

    /// Positions per batch.
    pub fn batch_size(&self) -> (r: usize)
        ensures
            r == self@.feed.batch_size,
    {
        self.feed.batch_size()
    }

    /// Batches counted so far.
    pub fn batches(&self) -> (r: usize)
        ensures
            r == self@.tally.batches,
    {
        self.tally.batches
    }

    /// Positions counted so far.
    pub fn positions(&self) -> (r: usize)
        ensures
            r == self@.tally.positions,
    {
        self.tally.positions
    }

    /// Whether a batch failed.
    pub fn failed(&self) -> (r: bool)
        ensures
            r == (self@.tally.error is Some),
    {
        self.tally.error.is_some()
    }

    /// Takes the batch on offer, unless the evaluation has its batches or has failed.
    pub fn offer(&mut self) -> (r: Option<BatchTicket>)
        requires
            old(self).wf(),
        ensures
            final(self).wf(),
            r is None <==> old(self)@.feed.done(),
            r is None <==> old(self)@.feed.stopped || old(self)@.feed.produced
                >= old(self)@.feed.limit,
            r is None ==> final(self)@ == old(self)@,
            r is Some ==> final(self)@.tally == old(self)@.tally && final(self)@.feed == (
            BatchFeedView { produced: old(self)@.feed.produced + 1, ..old(self)@.feed }),
            r matches Some(ticket) ==> {
                &&& final(self)@ == old(self)@.taken()
                &&& ticket.number == old(self)@.feed.produced + 1
                &&& ticket.batch_index == old(self)@.feed.produced
                &&& ticket.superbatch == old(self)@.feed.superbatch
                &&& ticket.max_superbatch == old(self)@.feed.max_superbatch
                &&& ticket.threads == old(self)@.feed.threads
            },
    {
        self.feed.offer()
    }

    /// Counts the batch that was taken, of `batch_size` positions and with the given outcome, and
    /// says whether the evaluation is at its end.
    pub fn deliver(&mut self, batch_size: usize, outcome: Result<(), E>) -> (r: bool)
        requires
            old(self).wf(),
            old(self)@.tally.error is None,
            old(self)@.tally.batches < old(self)@.feed.produced,
            outcome is Ok ==> old(self)@.tally.positions + larger(batch_size as int, 1)
                <= usize::MAX,
        ensures
            final(self).wf(),
            final(self)@ == old(self)@.answered(batch_size as nat, outcome),
            r == final(self)@.feed.done(),
            r == (outcome is Err || old(self)@.feed.produced >= old(self)@.feed.limit),
            final(self)@.feed == (BatchFeedView { stopped: outcome is Err, ..old(self)@.feed }),
            match outcome {
                Ok(_) => {
                    &&& final(self)@.tally.batches == old(self)@.tally.batches + 1
                    &&& final(self)@.tally.positions == old(self)@.tally.positions
                        + if batch_size == 0 {
                        1
                    } else {
                        batch_size as int
                    }
                    &&& final(self)@.tally.error is None
                },
                Err(e) => {
                    &&& final(self)@.tally.batches == old(self)@.tally.batches
                    &&& final(self)@.tally.positions == old(self)@.tally.positions
                    &&& final(self)@.tally.error == Some(e)
                },
            },
    {
        let stop: bool = self.tally.record(batch_size, outcome);
        self.feed.deliver(stop)
    }
}

impl<L, W> ValidationContext<L, W> {
    /// The countdown stays within the interval, and the next evaluation starts inside the cycle.
    pub open spec fn wf(&self) -> bool {
        &&& self@.loader.steps.batches_per_superbatch >= 1
        &&& self@.loader.max_superbatch >= 1
        &&& 1 <= self@.until <= initial_countdown(self@.frequency)
        &&& self@.next_start < cycle_batches(self@.loader.steps)
    }

    /// Validation with `loader` every `frequency` batches, from the start of the cycle on.
    pub fn new(loader: ValidationDataLoader<L, W>, frequency: usize) -> (r: Self)
        requires
            loader.wf(),
        ensures
            r.wf(),
            r@ == (ValidationContextView {
                loader: loader@,
                frequency: frequency as nat,
                until: initial_countdown(frequency as nat),
                next_start: 0,
            }),
            r@.until == if frequency == 0 {
                usize::MAX
            } else {
                frequency
            },
    {
        proof {
            lemma_cycle_positive(loader@.steps);
        }
        let batches_until_eval: usize = if frequency == 0 {
            usize::MAX
        } else {
            frequency
        };
        ValidationContext { loader, frequency, batches_until_eval, next_start_batch: 0 }
    }

    /// The loader of validation batches.
    pub fn loader(&self) -> (r: &ValidationDataLoader<L, W>)
        ensures
            r@ == self@.loader,
    {
        &self.loader
    }

    /// Where in the cycle the next evaluation starts.
    pub fn next_start_batch(&self) -> (r: usize)
        ensures
            r == self@.next_start,
    {
        self.next_start_batch
    }

    /// Counts a training batch, and says whether an evaluation is due after it.
    pub fn tick(&mut self) -> (due: bool)
        requires
            old(self).wf(),
        ensures
            final(self).wf(),
            due == tick_due(old(self)@.frequency, old(self)@.until),
            due <==> old(self)@.frequency > 0 && old(self)@.until == 1,
            final(self)@.until == if due {
                old(self)@.frequency as int
            } else if old(self)@.frequency == 0 {
                old(self)@.until as int
            } else {
                old(self)@.until - 1
            },
            final(self)@ == (ValidationContextView {
                until: tick_countdown(old(self)@.frequency, old(self)@.until),
                ..old(self)@
            }),
    {
        if self.frequency == 0 {
            return false;
        }
        if self.batches_until_eval > 0 {
            self.batches_until_eval = self.batches_until_eval - 1;
        }
        if self.batches_until_eval == 0 {
            self.batches_until_eval = self.frequency;
            return true;
        }
        false
    }

    /// Starts the next evaluation, in superbatch `superbatch`. With empty batches there is nothing
    /// to evaluate.
    pub fn run_validation<E>(&self, superbatch: usize) -> (r: Option<ValidationPass<E>>)
        requires
            self.wf(),
            self@.loader.steps.batch_size != 0 ==> window_start(
                self@.loader.steps,
                self@.next_start as int,
            ) <= usize::MAX,
        ensures
            r is None <==> self@.loader.steps.batch_size == 0,
            r matches Some(pass) ==> pass.wf() && pass@ == (ValidationPassView {
                feed: BatchFeedView {
                    start_batch: window_start(self@.loader.steps, self@.next_start as int) as nat,
                    batch_size: self@.loader.steps.batch_size as nat,
                    limit: self@.loader.steps.batches_per_superbatch as nat,
                    superbatch: superbatch as nat,
                    max_superbatch: self@.loader.max_superbatch,
                    threads: self@.loader.threads,
                    produced: 0,
                    stopped: false,
                },
                tally: ValidationTallyView::<E>::start(),
            }),
            r matches Some(pass) ==> pass@.tally.batches == 0 && pass@.tally.positions == 0
                && pass@.tally.error is None,
    {
        match self.loader.map_prepared_batches(self.next_start_batch, superbatch) {
            None => None,
            Some(feed) => Some(ValidationPass { feed, tally: ValidationTally::new() }),
        }
    }

    /// Moves the start of the next evaluation past `batches` batches, round the cycle.
    pub fn advance_batches(&mut self, batches: usize)
        requires
            old(self).wf(),
            batches != 0 ==> old(self)@.next_start + batches <= usize::MAX,
        ensures
            final(self).wf(),
            final(self)@ == (ValidationContextView {
                next_start: advanced(
                    old(self)@.next_start as int,
                    batches as int,
                    cycle_batches(old(self)@.loader.steps),
                ) as nat,
                ..old(self)@
            }),
            final(self)@.next_start == (old(self)@.next_start + batches) % cycle_batches(
                old(self)@.loader.steps,
            ),
    {
        proof {
            lemma_cycle_positive(self.loader@.steps);
            lemma_mod_bound(
                self.next_start_batch + batches,
                cycle_batches(self.loader@.steps),
            );
        }
        if batches == 0 {
            proof {
                lemma_small_mod(
                    self.next_start_batch as nat,
                    cycle_batches(self.loader@.steps) as nat,
                );
            }
            return ;
        }
        let cycle: usize = self.loader.batches_per_cycle().max(1);
        self.next_start_batch = (self.next_start_batch + batches) % cycle;
    }

    /// Ends an evaluation. A failed one is reported by its error and leaves the next evaluation
    /// where it was; any other is reported by its totals, and the next one starts behind it.
    pub fn finish_validation<E>(&mut self, pass: Option<ValidationPass<E>>) -> (r: Result<
        ValidationReport,
        E,
    >)
        requires
            old(self).wf(),
            pass matches Some(p) ==> p.wf() && (p@.tally.error is None && p@.tally.batches != 0
                ==> old(self)@.next_start + p@.tally.batches <= usize::MAX),
        ensures
            final(self).wf(),
            ({
                let tally = match pass {
                    Some(p) => p@.tally,
                    None => ValidationTallyView::<E>::start(),
                };
                match tally.error {
                    Some(e) => r == Err::<ValidationReport, E>(e) && final(self)@ == old(self)@,
                    None => {
                        &&& r is Ok
                        &&& r->Ok_0.batches == tally.batches
                        &&& r->Ok_0.positions == if tally.batches == 0 {
                            0
                        } else {
                            tally.positions
                        }
                        &&& final(self)@ == (ValidationContextView {
                            next_start: advanced(
                                old(self)@.next_start as int,
                                tally.batches as int,
                                cycle_batches(old(self)@.loader.steps),
                            ) as nat,
                            ..old(self)@
                        })
                    },
                }
            }),
            match pass {
                None => r matches Ok(report) && report.batches == 0 && report.positions == 0
                    && final(self)@ == old(self)@,
                Some(p) => match p@.tally.error {
                    Some(e) => r == Err::<ValidationReport, E>(e) && final(self)@ == old(self)@,
                    None => r matches Ok(report) && report.batches == p@.tally.batches && (
                    report.batches > 0 ==> report.positions == p@.tally.positions) && (
                    report.batches == 0 ==> report.positions == 0) && final(self)@.next_start == (
                    old(self)@.next_start + report.batches) % cycle_batches(
                        old(self)@.loader.steps,
                    ) && final(self)@.until == old(self)@.until,
                },
            },
    {
        let tally: ValidationTally<E> = match pass {
            Some(p) => p.tally,
            None => ValidationTally::new(),
        };
        let ValidationTally { batches, positions, error } = tally;
        proof {
            lemma_small_mod(
                self.next_start_batch as nat,
                cycle_batches(self.loader@.steps) as nat,
            );
        }
        match error {
            Some(e) => Err(e),
            None => {
                self.advance_batches(batches);
                if batches == 0 {
                    return Ok(ValidationReport { batches: 0, positions: 0 });
                }
                Ok(ValidationReport { batches, positions })
            },
        }
    }
}

/// The line that reports an evaluation whose average loss reads `loss`.
pub open spec fn report_line(
    report: ValidationReport,
    superbatch: nat,
    batch: nat,
    loss: Seq<char>,
) -> Seq<SpanView> {
    if report.batches > 0 {
        seq![
            plain("validation superbatch "@),
            styled(decimal_chars(superbatch), Style::Number),
            plain(" batch "@),
            styled(decimal_chars(batch), Style::Number),
            plain(" | loss "@),
            styled(loss, Style::Value),
            plain(" | batches "@),
            styled(decimal_chars(report.batches as nat), Style::Number),
            plain(" | positions "@),
            styled(decimal_chars(report.positions as nat), Style::Number),
        ]
    } else {
        seq![
            styled(
                "Validation dataloader produced no batches; skipping loss report for this interval."@,
                Style::Warning,
            ),
        ]
    }
}

impl ValidationReport {
    /// Whether the evaluation has an average loss to record.
    pub fn has_loss(&self) -> (r: bool)
        ensures
            r == (self.batches > 0),
    {
        self.batches > 0
    }

    /// Adds the average loss of the evaluation after batch `batch` of superbatch `superbatch` to
    /// the recorded losses, if it has one.
    pub fn record_loss<T>(
        &self,
        record: &mut Vec<(usize, usize, T)>,
        superbatch: usize,
        batch: usize,
        loss: T,
    )
        ensures
            final(record)@ == if self.batches > 0 {
                old(record)@.push((superbatch, batch, loss))
            } else {
                old(record)@
            },
    {
        if self.has_loss() {
            record.push((superbatch, batch, loss));
        }
    }

    /// The line that reports the evaluation after batch `batch` of superbatch `superbatch`, whose
    /// average loss reads `loss`; a warning where no batch was evaluated.
    pub fn line(&self, superbatch: usize, batch: usize, loss: &str) -> (r: Line)
        ensures
            r@ == report_line(*self, superbatch as nat, batch as nat, loss@),
            self.batches == 0 ==> r@ == seq![
                SpanView {
                    text: "Validation dataloader produced no batches; skipping loss report for this interval."@,
                    style: Style::Warning,
                },
            ],
            self.batches > 0 ==> r@ == seq![
                SpanView { text: "validation superbatch "@, style: Style::Plain },
                SpanView { text: decimal_chars(superbatch as nat), style: Style::Number },
                SpanView { text: " batch "@, style: Style::Plain },
                SpanView { text: decimal_chars(batch as nat), style: Style::Number },
                SpanView { text: " | loss "@, style: Style::Plain },
                SpanView { text: loss@, style: Style::Value },
                SpanView { text: " | batches "@, style: Style::Plain },
                SpanView { text: decimal_chars(self.batches as nat), style: Style::Number },
                SpanView { text: " | positions "@, style: Style::Plain },
                SpanView { text: decimal_chars(self.positions as nat), style: Style::Number },
            ],
    {
        if !self.has_loss() {
            return Line::single(
                "Validation dataloader produced no batches; skipping loss report for this interval.",
                Style::Warning,
            );
        }
        let mut line = Line::new();
        line.push("validation superbatch ".to_owned(), Style::Plain);
        line.push(decimal(superbatch), Style::Number);
        line.push(" batch ".to_owned(), Style::Plain);
        line.push(decimal(batch), Style::Number);
        line.push(" | loss ".to_owned(), Style::Plain);
        line.push(loss.to_owned(), Style::Value);
        line.push(" | batches ".to_owned(), Style::Plain);
        line.push(decimal(self.batches), Style::Number);
        line.push(" | positions ".to_owned(), Style::Plain);
        line.push(decimal(self.positions), Style::Number);
        assert(line@ =~= report_line(*self, superbatch as nat, batch as nat, loss@));
        line
    }
}

/// Validation is due at every batch whose number is a multiple of the interval and at no other,
/// counting batches from one.
pub proof fn lemma_due_every_interval(frequency: nat, n: nat)
    requires
        0 < frequency,
        0 < n,
    ensures
        tick_due(frequency, countdown_after(frequency, (n - 1) as nat)) <==> n % frequency == 0,
{
    lemma_countdown(frequency, (n - 1) as nat);
    lemma_successor_div_mod((n - 1) as int, frequency as int);
}

/// After `n` batches the countdown is short of the interval by the remainder of `n`.
pub proof fn lemma_countdown(frequency: nat, n: nat)
    requires
        0 < frequency,
    ensures
        countdown_after(frequency, n) == frequency - n % frequency,
    decreases n,
{
    if n == 0 {
        lemma_small_mod(0, frequency);
    } else {
        lemma_countdown(frequency, (n - 1) as nat);
        lemma_successor_div_mod((n - 1) as int, frequency as int);
    }
}

/// Validation with interval zero is never due.
pub proof fn lemma_never_due(n: nat)
    ensures
        !tick_due(0, countdown_after(0, n)),
{
}

/// Two evaluations move the start as far round the cycle as one that takes the batches of both.
pub proof fn lemma_advance_composes(start: int, a: int, b: int, cycle: int)
    requires
        cycle > 0,
    ensures
        advanced(advanced(start, a, cycle), b, cycle) == advanced(start, a + b, cycle),
{
    lemma_add_mod_noop_right(b, start + a, cycle);
    assert(b + (start + a) == start + (a + b));
}

/// Evaluations that take a whole cycle of batches between them bring the start back to where it
/// was.
pub proof fn lemma_advance_whole_cycle(start: int, cycle: int)
    requires
        0 <= start < cycle,
    ensures
        advanced(start, cycle, cycle) == start,
{
    lemma_mod_add_multiples_vanish(start, cycle);
    lemma_small_mod(start as nat, cycle as nat);
}

/// Where in the cycle evaluation number `k` starts, counted from zero, if each takes its full
/// number of batches.
pub open spec fn evaluation_start(steps: TrainingSteps, k: nat) -> int
    decreases k,
{
    if k == 0 {
        0
    } else {
        advanced(
            evaluation_start(steps, (k - 1) as nat),
            evaluation_batches(steps),
            cycle_batches(steps),
        )
    }
}

/// Evaluations that take their full number of batches read the validation set in consecutive
/// windows, one for each superbatch of the cycle, and then start again: none overlaps another
/// within the cycle and none is left out.
pub proof fn lemma_evaluations_tile_cycle(steps: TrainingSteps, k: nat)
    requires
        evaluation_batches(steps) * cycle_span(steps) <= usize::MAX,
    ensures
        evaluation_start(steps, k) == evaluation_batches(steps) * (k as int % cycle_span(steps)),
        window_start(steps, evaluation_start(steps, k)) == offset_batches(steps)
            + evaluation_batches(steps) * (k as int % cycle_span(steps)),
{
    lemma_cycle_positive(steps);
    let e = evaluation_batches(steps);
    let span = cycle_span(steps);
    let cycle = cycle_batches(steps);
    lemma_evaluation_start(steps, k);
    lemma_truncate_middle(k as int, e, span);
    lemma_mod_bound(k * e, cycle);
    assert(k * e == e * k) by (nonlinear_arith);
    lemma_small_mod(evaluation_start(steps, k) as nat, cycle as nat);
}

/// The windows of evaluations in numbers: evaluation number `k`, counted from zero, reads the
/// batches of the superbatch that it comes to when the superbatches from the first to the last are
/// gone through in order, again and again.
pub proof fn lemma_evaluation_reads_superbatch(steps: TrainingSteps, k: nat)
    requires
        0 < steps.start_superbatch <= steps.end_superbatch,
        steps.batches_per_superbatch > 0,
        steps.batches_per_superbatch * steps.end_superbatch <= usize::MAX,
    ensures
        window_start(steps, evaluation_start(steps, k)) == steps.batches_per_superbatch * (
        steps.start_superbatch - 1 + k as int % (steps.end_superbatch - steps.start_superbatch
            + 1)),
{
    let each = steps.batches_per_superbatch as int;
    let first = steps.start_superbatch as int;
    let last = steps.end_superbatch as int;
    let span = last - first + 1;
    let at = k as int % span;
    assert(each * span <= each * last && each * (first - 1) <= each * last && each * (first - 1)
        >= 0 && last <= each * last) by (nonlinear_arith)
        requires
            each > 0,
            0 < first <= last,
            span == last - first + 1,
    ;
    assert(cycle_span(steps) == span);
    lemma_evaluations_tile_cycle(steps, k);
    assert(each * (first - 1) + each * at == each * (first - 1 + at)) by (nonlinear_arith);
}

/// The positions of batches add up: those of two lots of batches together are those of each, and
/// one batch has its own, or one where it is empty.
pub proof fn lemma_positions_add_up(a: Seq<nat>, b: Seq<nat>, size: nat)
    ensures
        total_positions(a + b) == total_positions(a) + total_positions(b),
        total_positions(seq![size]) == if size == 0 {
            1
        } else {
            size
        },
        total_positions(Seq::empty()) == 0,
    decreases b.len(),
{
    assert(seq![size].drop_last() =~= Seq::<nat>::empty());
    assert(total_positions(Seq::<nat>::empty()) == 0);
    if b.len() == 0 {
        assert(a + b =~= a);
    } else {
        lemma_positions_add_up(a, b.drop_last(), size);
        assert((a + b).drop_last() =~= a + b.drop_last());
    }
}

proof fn lemma_evaluation_start(steps: TrainingSteps, k: nat)
    ensures
        evaluation_start(steps, k) == (k * evaluation_batches(steps)) % cycle_batches(steps),
    decreases k,
{
    lemma_cycle_positive(steps);
    let e = evaluation_batches(steps);
    let cycle = cycle_batches(steps);
    if k == 0 {
        assert(0 * e == 0);
        lemma_small_mod(0, cycle as nat);
    } else {
        let j = (k - 1) as nat;
        lemma_evaluation_start(steps, j);
        lemma_add_mod_noop_right(e, j * e, cycle);
        assert(e + j * e == k * e) by (nonlinear_arith)
            requires
                k == j + 1,
        ;
    }
}

/// The sizes of the first `n` batches.
pub open spec fn sizes_of<E>(results: Seq<(nat, Result<(), E>)>, n: int) -> Seq<nat> {
    Seq::new(n as nat, |i: int| results[i].0)
}

/// What an evaluation comes to. Without a failure it counts every batch on offer up to its limit,
/// and all their positions. With one it reports the first failure, counts the batches before it
/// and takes none after it.
pub proof fn lemma_evaluation_outcome<E>(
    pass: ValidationPassView<E>,
    results: Seq<(nat, Result<(), E>)>,
)
    requires
        pass.feed.produced == 0,
        !pass.feed.stopped,
        pass.tally == ValidationTallyView::<E>::start(),
    ensures
        ({
            let end = pass.after(results);
            let taken = end.feed.produced;
            &&& taken <= pass.feed.limit && taken <= results.len()
            &&& forall|i: int| 0 <= i < taken - 1 ==> (#[trigger] results[i]).1 is Ok
            &&& end.feed.stopped <==> end.tally.error is Some
            &&& end.feed.limit == pass.feed.limit
            &&& match end.tally.error {
                None => {
                    &&& taken == pass.feed.limit || taken == results.len()
                    &&& taken > 0 ==> results[taken - 1].1 is Ok
                    &&& end.tally.batches == taken
                    &&& end.tally.positions == total_positions(sizes_of(results, taken as int))
                },
                Some(e) => {
                    &&& taken > 0
                    &&& results[taken - 1].1 == Err::<(), E>(e)
                    &&& end.tally.batches == taken - 1
                    &&& end.tally.positions == total_positions(sizes_of(results, taken - 1))
                },
            }
        }),
    decreases results.len(),
{
    if results.len() == 0 {
        assert(sizes_of(results, 0) =~= Seq::<nat>::empty());
    } else {
        let init = results.drop_last();
        lemma_evaluation_outcome(pass, init);
        let before = pass.after(init);
        let end = pass.after(results);
        let n = before.feed.produced as int;
        assert(forall|i: int| 0 <= i < init.len() ==> results[i] == #[trigger] init[i]);
        assert(sizes_of(init, n) =~= sizes_of(results, n));
        if n > 0 {
            assert(sizes_of(init, n - 1) =~= sizes_of(results, n - 1));
        }
        if !before.feed.done() {
            assert(n == init.len());
            assert(sizes_of(results, n + 1).drop_last() =~= sizes_of(results, n));
            assert(sizes_of(results, n + 1).last() == results.last().0);
            assert forall|i: int| 0 <= i < end.feed.produced - 1 implies (
            #[trigger] results[i]).1 is Ok by {
                assert(results[i] == init[i]);
            }
        } else {
            assert forall|i: int| 0 <= i < end.feed.produced - 1 implies (
            #[trigger] results[i]).1 is Ok by {
                assert(results[i] == init[i]);
            }
            if n > 0 {
                assert(results[n - 1] == init[n - 1]);
            }
        }
    }
}

} // verus!
