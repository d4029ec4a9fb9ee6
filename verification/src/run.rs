//! A training run: how validation is set up, and what follows each batch and each superbatch.
use crate::numeric::{clamped, larger, lemma_successor_div_mod, saturating_product};
use crate::settings::TestDataset;
use crate::steps::TrainingSteps;
use crate::text::{
    decimal, decimal_chars, lemma_decimal_injective, plain, styled, Line, SpanView, Style,
};
use crate::validation::{
    countdown_after, initial_countdown, lemma_due_every_interval, tick_countdown, tick_due,
    ValidationContext, ValidationContextView,
};
use crate::validation_loader::{with_batches, ValidationDataLoader, ValidationDataLoaderView};
use vstd::arithmetic::div_mod::{
    lemma_fundamental_div_mod, lemma_fundamental_div_mod_converse, lemma_mod_bound, lemma_mod_mod,
};
use vstd::prelude::*;
use vstd::string::*;

verus! {

/// Batches over which a recorded loss is averaged, in superbatches that long.
pub const LOSS_WINDOW: usize = 32;

/// Batches from one progress report to the next.
pub const LOG_RATE: usize = 128;

/// Whether a run validates, and how.
#[derive(Clone, Copy, Debug, PartialEq, Eq, Structural)]
pub enum ValidationPlan {
    /// No validation data set is configured.
    Off,
    /// The data set is configured with a frequency of zero.
    ZeroFrequency,
    /// A data set is configured, but there is no loader for it.
    NoLoader,
    /// Validation runs every so many superbatches, each time over so many batches where that is
    /// configured.
    Every { superbatches: usize, batches_per_eval: Option<usize> },
}

/// How a run with the given validation data set validates.
pub open spec fn validation_plan(test_set: Option<TestDataset>, has_loader: bool) -> ValidationPlan {
    match test_set {
        None => ValidationPlan::Off,
        Some(set) => if !has_loader {
            ValidationPlan::NoLoader
        } else if set.freq == 0 {
            ValidationPlan::ZeroFrequency
        } else {
            ValidationPlan::Every {
                superbatches: set.freq,
                batches_per_eval: set.batches_per_eval,
            }
        },
    }
}

/// How a run with the given validation data set validates, where `has_loader` tells whether there
/// is a loader for it.
pub fn plan_validation(test_set: Option<TestDataset>, has_loader: bool) -> (r: ValidationPlan)
    ensures
        r == validation_plan(test_set, has_loader),
        r is Off <==> test_set is None,
        r is NoLoader <==> test_set is Some && !has_loader,
        r is ZeroFrequency <==> test_set is Some && has_loader && test_set->0.freq == 0,
        r matches ValidationPlan::Every { superbatches, batches_per_eval } ==> superbatches
            == test_set->0.freq && batches_per_eval == test_set->0.batches_per_eval,
{
    match test_set {
        None => ValidationPlan::Off,
        Some(set) => {
            if !has_loader {
                ValidationPlan::NoLoader
            } else if set.freq == 0 {
                ValidationPlan::ZeroFrequency
            } else {
                ValidationPlan::Every {
                    superbatches: set.freq,
                    batches_per_eval: set.batches_per_eval,
                }
            }
        },
    }
}

impl ValidationPlan {
    /// The warning that a configured data set is not used, if so.
    pub fn warning(&self) -> (r: Option<Line>)
        ensures
            match *self {
                ValidationPlan::ZeroFrequency => r is Some && r->0@ == seq![
                    styled(
                        "Validation dataset configured with evaluation frequency 0; skipping validation."@,
                        Style::Warning,
                    ),
                ],
                ValidationPlan::NoLoader => r is Some && r->0@ == seq![
                    styled(
                        "Validation dataset configured but no validation loader supplied; skipping validation."@,
                        Style::Warning,
                    ),
                ],
                _ => r is None,
            },
    {
        match self {
            ValidationPlan::ZeroFrequency => Some(
                Line::single(
                    "Validation dataset configured with evaluation frequency 0; skipping validation.",
                    Style::Warning,
                ),
            ),
            ValidationPlan::NoLoader => Some(
                Line::single(
                    "Validation dataset configured but no validation loader supplied; skipping validation.",
                    Style::Warning,
                ),
            ),
            _ => None,
        }
    }
}

/// The heading of the lines that a run starts with.
pub fn preamble_heading() -> (r: Line)
    ensures
        r@ == seq![styled("Training Preamble"@, Style::Heading)],
        r@ == seq![SpanView { text: "Training Preamble"@, style: Style::Heading }],
{
    Line::single("Training Preamble", Style::Heading)
}

/// Training batches from one evaluation to the next, for validation every `superbatches`
/// superbatches.
pub open spec fn validation_interval(superbatches: nat, steps: TrainingSteps) -> nat {
    clamped(superbatches * larger(steps.batches_per_superbatch as int, 1)) as nat
}

/// The steps of evaluations of `batches_per_eval` batches, where that is configured.
pub open spec fn evaluation_extent(
    steps: TrainingSteps,
    batches_per_eval: Option<usize>,
) -> TrainingSteps {
    match batches_per_eval {
        None => steps,
        Some(batches) => TrainingSteps { batches_per_superbatch: batches, ..steps },
    }
}

/// Sets up validation every `superbatches` superbatches of a run of `steps`. The validation set is
/// read in `validation_steps`, or `batches_per_eval` batches at a time where that is configured.
pub fn validation_context<L, W>(
    superbatches: usize,
    batches_per_eval: Option<usize>,
    steps: TrainingSteps,
    validation_steps: TrainingSteps,
    threads: usize,
    dataloader: L,
    wdl: W,
) -> (r: ValidationContext<L, W>)
    ensures
        r.wf(),
        r@ == (ValidationContextView {
            loader: ValidationDataLoaderView {
                dataloader,
                steps: with_batches(evaluation_extent(validation_steps, batches_per_eval)),
                threads: threads as nat,
                wdl,
                max_superbatch: larger(steps.end_superbatch as int, 1) as nat,
            },
            frequency: validation_interval(superbatches as nat, steps),
            until: initial_countdown(validation_interval(superbatches as nat, steps)),
            next_start: 0,
        }),
        r@.loader.steps.batches_per_superbatch == match batches_per_eval {
            None => if validation_steps.batches_per_superbatch == 0 {
                1
            } else {
                validation_steps.batches_per_superbatch
            },
            Some(batches) => if batches == 0 {
                1
            } else {
                batches
            },
        },
        r@.loader.steps.batch_size == validation_steps.batch_size,
        r@.loader.steps.start_superbatch == validation_steps.start_superbatch,
        r@.loader.steps.end_superbatch == validation_steps.end_superbatch,
        r@.loader.max_superbatch == if steps.end_superbatch == 0 {
            1
        } else {
            steps.end_superbatch as int
        },
        ({
            let per = if steps.batches_per_superbatch == 0 {
                1int
            } else {
                steps.batches_per_superbatch as int
            };
            r@.frequency == if superbatches * per <= usize::MAX {
                superbatches * per
            } else {
                usize::MAX as int
            }
        }),
        r@.until == if r@.frequency == 0 {
            usize::MAX as int
        } else {
            r@.frequency as int
        },
{
    let mut extent = validation_steps;
    if let Some(batches) = batches_per_eval {
        extent.batches_per_superbatch = batches;
    }
    let max_superbatch: usize = steps.end_superbatch.max(1);
    let per: usize = steps.batches_per_superbatch.max(1);
    let interval: usize = saturating_product(superbatches, per);
    ValidationContext::new(
        ValidationDataLoader::new(dataloader, extent, threads, wdl, max_superbatch),
        interval,
    )
}

/// The fixed facts of a run that decide what follows its batches and superbatches.
pub struct TrainingRun {
    steps: TrainingSteps,
    save_rate: usize,
    net_id: String,
    output_directory: String,
}

/// What a [`TrainingRun`] holds.
pub ghost struct TrainingRunView {
    pub steps: TrainingSteps,
    pub save_rate: nat,
    pub net_id: Seq<char>,
    pub output_directory: Seq<char>,
}

impl View for TrainingRun {
    type V = TrainingRunView;

    closed spec fn view(&self) -> TrainingRunView {
        TrainingRunView {
            steps: self.steps,
            save_rate: self.save_rate as nat,
            net_id: self.net_id@,
            output_directory: self.output_directory@,
        }
    }
}

/// What follows a training batch.
#[derive(Clone, Copy, Debug, PartialEq, Eq, Structural)]
pub struct BatchActions {
    /// Record the summed loss, divided by this number, and start a new sum.
    pub record: Option<usize>,
    /// Run an evaluation.
    pub validate: bool,
}

/// Whether the loss is recorded after batch `curr` of a superbatch of `per` batches.
pub open spec fn window_closes(curr: int, per: int) -> bool {
    curr % 32 == 0 || (per < 32 && curr == per)
}

/// The number by which a recorded loss is divided.
pub open spec fn window_length(per: int) -> int {
    if per < 32 {
        per
    } else {
        32
    }
}

/// Where a checkpoint is written.
#[derive(Debug)]
pub struct CheckpointPaths {
    /// The name of the checkpoint.
    pub name: String,
    /// Its directory.
    pub path: String,
    /// The file with the losses so far.
    pub log: String,
}

impl TrainingRunView {
    /// Whether a checkpoint is saved after a superbatch.
    pub open spec fn saves(self, superbatch: nat) -> bool {
        superbatch % self.save_rate == 0 || superbatch == self.steps.end_superbatch
    }

    /// The name of the checkpoint after a superbatch.
    pub open spec fn checkpoint_name(self, superbatch: nat) -> Seq<char> {
        self.net_id + "-"@ + decimal_chars(superbatch)
    }

    /// The directory of the checkpoint after a superbatch.
    pub open spec fn checkpoint_path(self, superbatch: nat) -> Seq<char> {
        self.output_directory + "/"@ + self.checkpoint_name(superbatch)
    }
}

impl TrainingRun {
    /// A run of `steps` of the net `net_id`, saved every `save_rate` superbatches.
    pub fn new(steps: TrainingSteps, save_rate: usize, net_id: &str, output_directory: &str) -> (r:
        Self)
        ensures
            r@ == (TrainingRunView {
                steps,
                save_rate: save_rate as nat,
                net_id: net_id@,
                output_directory: output_directory@,
            }),
    {
        TrainingRun {
            steps,
            save_rate,
            net_id: net_id.to_owned(),
            output_directory: output_directory.to_owned(),
        }
    }

    /// What follows batch `curr_batch` of a superbatch, counted from one.
    pub fn after_batch<L, W>(
        &self,
        curr_batch: usize,
        validation: &mut Option<ValidationContext<L, W>>,
    ) -> (r: BatchActions)
        requires
            *old(validation) matches Some(context) ==> context.wf(),
        ensures
            r.record == if window_closes(
                curr_batch as int,
                self@.steps.batches_per_superbatch as int,
            ) {
                Some(window_length(self@.steps.batches_per_superbatch as int) as usize)
            } else {
                None
            },
            r.record is Some <==> curr_batch as int % 32 == 0 || (
            self@.steps.batches_per_superbatch < 32 && curr_batch
                == self@.steps.batches_per_superbatch),
            r.record matches Some(divisor) ==> {
                &&& divisor <= 32 && divisor <= self@.steps.batches_per_superbatch
                &&& divisor == 32 || divisor == self@.steps.batches_per_superbatch
            },
            *old(validation) matches Some(before) ==> {
                &&& r.validate <==> before@.frequency > 0 && before@.until == 1
                &&& *final(validation) matches Some(after) && after@.frequency
                    == before@.frequency && after@.loader == before@.loader
                    && after@.next_start == before@.next_start && after@.until == if r.validate {
                    before@.frequency as int
                } else if before@.frequency == 0 {
                    before@.until as int
                } else {
                    before@.until - 1
                }
            },
            match (*old(validation), *final(validation)) {
                (None, None) => !r.validate,
                (Some(before), Some(after)) => {
                    &&& after.wf()
                    &&& r.validate == tick_due(before@.frequency, before@.until)
                    &&& after@ == (ValidationContextView {
                        until: tick_countdown(before@.frequency, before@.until),
                        ..before@
                    })
                },
                _ => false,
            },
    {
        let per: usize = self.steps.batches_per_superbatch;
        let record: Option<usize> = if curr_batch % LOSS_WINDOW == 0 || (per < LOSS_WINDOW
            && curr_batch == per) {
            if per < LOSS_WINDOW {
                Some(per)
            } else {
                Some(LOSS_WINDOW)
            }
        } else {
            None
        };
        let validate: bool = match validation {
            Some(context) => context.tick(),
            None => false,
        };
        BatchActions { record, validate }
    }

    /// Where the checkpoint after superbatch `superbatch` is written, if one is.
    pub fn after_superbatch(&self, superbatch: usize) -> (r: Option<CheckpointPaths>)
        requires
            self@.save_rate > 0,
        ensures
            r is Some <==> self@.saves(superbatch as nat),
            r is Some <==> superbatch as nat % self@.save_rate == 0 || superbatch
                == self@.steps.end_superbatch,
            r matches Some(paths) ==> {
                &&& paths.name@ == self@.net_id + "-"@ + decimal_chars(superbatch as nat)
                &&& paths.path@ == self@.output_directory + "/"@ + paths.name@
                &&& paths.log@ == paths.path@ + "/log.txt"@
            },
            r matches Some(paths) ==> {
                &&& paths.name@ == self@.checkpoint_name(superbatch as nat)
                &&& paths.path@ == self@.checkpoint_path(superbatch as nat)
                &&& paths.log@ == self@.checkpoint_path(superbatch as nat) + "/log.txt"@
            },
    {
        if superbatch % self.save_rate == 0 || superbatch == self.steps.end_superbatch {
            let mut name = self.net_id.clone();
            name.append("-");
            name.append(decimal(superbatch).as_str());
            let mut path = self.output_directory.clone();
            path.append("/");
            path.append(name.as_str());
            let mut log = path.clone();
            log.append("/log.txt");
            Some(CheckpointPaths { name, path, log })
        } else {
            None
        }
    }
}

/// The line that tells of a saved checkpoint.
pub open spec fn saved_line(name: Seq<char>) -> Seq<SpanView> {
    seq![plain("Saved ["@), styled(name, Style::Value), plain("]"@)]
}

impl CheckpointPaths {
    /// The line that tells that the checkpoint was saved.
    pub fn line(&self) -> (r: Line)
        ensures
            r@ == saved_line(self.name@),
            r@ == seq![
                SpanView { text: "Saved ["@, style: Style::Plain },
                SpanView { text: self.name@, style: Style::Value },
                SpanView { text: "]"@, style: Style::Plain },
            ],
    {
        let mut line = Line::labelled("Saved [", self.name.clone(), Style::Value);
        line.push("]".to_owned(), Style::Plain);
        assert(line@ =~= saved_line(self.name@));
        line
    }
}

/// A run validates exactly when a data set with a frequency and a loader for it are both there.
pub proof fn lemma_plan_covers(test_set: Option<TestDataset>, has_loader: bool)
    ensures
        validation_plan(test_set, has_loader) is Every <==> has_loader && test_set is Some
            && test_set->0.freq > 0,
{
}

/// A run validates as configured: as often as the data set says, and at each evaluation over as
/// many batches as the data set says or, where it says nothing, over a superbatch of
/// `validation_steps`; over one where that is none. Nothing else of the steps changes.
pub proof fn lemma_plan_as_configured(
    test_set: Option<TestDataset>,
    has_loader: bool,
    validation_steps: TrainingSteps,
)
    ensures
        match validation_plan(test_set, has_loader) {
            ValidationPlan::Off => test_set is None,
            ValidationPlan::NoLoader => test_set is Some && !has_loader,
            ValidationPlan::ZeroFrequency => has_loader && test_set is Some && test_set->0.freq
                == 0,
            ValidationPlan::Every { superbatches, batches_per_eval } => {
                let extent = with_batches(evaluation_extent(validation_steps, batches_per_eval));
                &&& has_loader && test_set is Some && test_set->0.freq > 0
                &&& superbatches == test_set->0.freq
                &&& batches_per_eval == test_set->0.batches_per_eval
                &&& extent.batches_per_superbatch >= 1
                &&& test_set->0.batches_per_eval matches Some(n) ==> extent.batches_per_superbatch
                    == n || (n == 0 && extent.batches_per_superbatch == 1)
                &&& test_set->0.batches_per_eval is None ==> extent.batches_per_superbatch
                    == validation_steps.batches_per_superbatch || (
                validation_steps.batches_per_superbatch == 0 && extent.batches_per_superbatch == 1)
                &&& extent.batch_size == validation_steps.batch_size
                &&& extent.start_superbatch == validation_steps.start_superbatch
                &&& extent.end_superbatch == validation_steps.end_superbatch
            },
        },
{
}

/// The interval of validation is that many superbatches of batches, where a superbatch has at
/// least one and no more batches can be counted than `usize` holds.
pub proof fn lemma_interval_in_batches(superbatches: nat, steps: TrainingSteps)
    ensures
        ({
            let interval = validation_interval(superbatches, steps);
            let batches = superbatches * steps.batches_per_superbatch;
            &&& interval <= usize::MAX
            &&& steps.batches_per_superbatch > 0 && batches <= usize::MAX ==> interval == batches
            &&& steps.batches_per_superbatch > 0 && batches > usize::MAX ==> interval == usize::MAX
            &&& steps.batches_per_superbatch == 0 && superbatches <= usize::MAX ==> interval
                == superbatches
        }),
{
    let n = superbatches as int;
    let per = larger(steps.batches_per_superbatch as int, 1);
    assert(n * per >= 0) by (nonlinear_arith)
        requires
            n >= 0,
            per >= 1,
    ;
}

/// Validation runs every so many superbatches: it is due after batch `n` of the run, counted from
/// one, exactly where that batch ends a superbatch whose number in the run is a multiple of
/// `superbatches`.
pub proof fn lemma_validation_every_superbatches(superbatches: nat, steps: TrainingSteps, n: nat)
    requires
        superbatches > 0,
        steps.batches_per_superbatch > 0,
        superbatches * steps.batches_per_superbatch <= usize::MAX,
        n > 0,
    ensures
        ({
            let interval = validation_interval(superbatches, steps);
            let per = steps.batches_per_superbatch as nat;
            tick_due(interval, countdown_after(interval, (n - 1) as nat)) <==> n % per == 0 && (n
                / per) % superbatches == 0
        }),
{
    let per = steps.batches_per_superbatch as nat;
    lemma_interval_is_superbatches(superbatches, per, n);
    assert(validation_interval(superbatches, steps) == superbatches * per);
    lemma_due_every_interval(superbatches * per, n);
}

proof fn lemma_interval_is_superbatches(superbatches: nat, per: nat, n: nat)
    requires
        superbatches > 0,
        per > 0,
    ensures
        n % (superbatches * per) == 0 <==> n % per == 0 && (n / per) % superbatches == 0,
        superbatches * per > 0,
{
    let s = superbatches as int;
    let p = per as int;
    let m = n as int;
    assert(s * p > 0) by (nonlinear_arith)
        requires
            s > 0,
            p > 0,
    ;
    let q = m / p;
    let r = m % p;
    lemma_fundamental_div_mod(m, p);
    lemma_mod_bound(m, p);
    lemma_fundamental_div_mod(q, s);
    lemma_mod_bound(q, s);
    let rest = (q % s) * p + r;
    assert(m == (q / s) * (s * p) + rest) by (nonlinear_arith)
        requires
            m == p * q + r,
            q == s * (q / s) + q % s,
            rest == (q % s) * p + r,
    ;
    assert(0 <= rest < s * p) by (nonlinear_arith)
        requires
            0 <= r < p,
            0 <= q % s < s,
            rest == (q % s) * p + r,
    ;
    lemma_fundamental_div_mod_converse(m, s * p, q / s, rest);
    assert(rest == 0 <==> r == 0 && q % s == 0) by (nonlinear_arith)
        requires
            0 <= r < p,
            0 <= q % s,
            rest == (q % s) * p + r,
    ;
}

/// Where superbatches are shorter than the window or made of whole windows, the loss is recorded
/// after every batch of the run whose number is a multiple of the window's length, and after no
/// other: each recorded loss is the average over exactly that many batches. The batch with number
/// `n` in the run is number `(n - 1) % per + 1` in its superbatch.
pub proof fn lemma_loss_windows(per: nat, n: nat)
    requires
        per > 0,
        per < 32 || per % 32 == 0,
        n > 0,
    ensures
        window_closes((n - 1) as int % per as int + 1, per as int) <==> n as int % window_length(
            per as int,
        ) == 0,
{
    let m = (n - 1) as int;
    let p = per as int;
    let r = m % p;
    lemma_successor_div_mod(m, p);
    if p >= 32 {
        let k = p / 32;
        assert(p == 32 * k);
        lemma_mod_mod(m, 32, k);
        assert(r % 32 == m % 32);
        assert((r + 1) % 32 == 0 <==> (m + 1) % 32 == 0);
    }
}

/// A recorded loss is divided by the number of batches that it was summed over: where one is
/// recorded after batch `c` of a superbatch, the divisor is the number of batches since the last
/// record in that superbatch, or since its start.
pub proof fn lemma_divisor_counts_batches(c: int, per: int)
    requires
        0 < c <= per,
        window_closes(c, per),
    ensures
        ({
            let last = c - window_length(per);
            &&& 0 <= last < c
            &&& last == 0 || window_closes(last, per)
            &&& forall|k: int| last < k < c ==> !#[trigger] window_closes(k, per)
        }),
{
}

/// In a superbatch of any length, losses are recorded after exactly the batches whose number is a
/// multiple of the smaller of 32 and that length, by which they are divided.
pub proof fn lemma_records_in_superbatch(c: int, per: int)
    requires
        0 < c <= per,
    ensures
        window_length(per) <= 32,
        window_length(per) <= per,
        window_length(per) == 32 || window_length(per) == per,
        window_closes(c, per) <==> c % window_length(per) == 0,
{
    if per < 32 {
        assert(c % per == 0 <==> c == per) by (nonlinear_arith)
            requires
                0 < c <= per,
        ;
    }
}

/// The last superbatch of a run is always saved.
pub proof fn lemma_last_superbatch_saved(run: TrainingRunView)
    ensures
        run.saves(run.steps.end_superbatch as nat),
{
}

/// The superbatches that are saved are the multiples of the save rate and the last one, and no
/// other. Here the number of the superbatch is `r` more than `k` times the save rate.
pub proof fn lemma_saved_superbatches(run: TrainingRunView, k: nat, r: nat)
    requires
        r < run.save_rate,
    ensures
        ({
            let superbatch = k * run.save_rate + r;
            run.saves(superbatch) <==> r == 0 || superbatch == run.steps.end_superbatch
        }),
{
    lemma_fundamental_div_mod_converse(
        (k * run.save_rate + r) as int,
        run.save_rate as int,
        k as int,
        r as int,
    );
}

/// Checkpoints after different superbatches of a run are written to different places.
pub proof fn lemma_checkpoints_apart(run: TrainingRunView, a: nat, b: nat)
    requires
        run.checkpoint_path(a) == run.checkpoint_path(b),
    ensures
        a == b,
{
    let head = run.output_directory + "/"@ + (run.net_id + "-"@);
    assert(run.checkpoint_path(a) =~= head + decimal_chars(a));
    assert(run.checkpoint_path(b) =~= head + decimal_chars(b));
    assert(decimal_chars(a) =~= (head + decimal_chars(a)).skip(head.len() as int));
    assert(decimal_chars(b) =~= (head + decimal_chars(b)).skip(head.len() as int));
    lemma_decimal_injective(a, b);
}

} // verus!
