//! Settings of a training run on this machine.
use crate::text::{decimal, decimal_chars, lines_view, plain, styled, Line, SpanView, Style};
use vstd::prelude::*;

verus! {

/// A data set to validate on.
#[derive(Clone, Copy)]
pub struct TestDataset<'a> {
    /// Path to test dataset.
    pub path: &'a str,
    /// Frequency of validation loss (run validation every `freq` superbatches).
    pub freq: usize,
    /// Number of batches to consume from the validation loader each evaluation.
    pub batches_per_eval: Option<usize>,
}

impl<'a> TestDataset<'a> {
    /// The data set at `path`, validated after every superbatch.
    pub fn at(path: &'a str) -> (r: TestDataset<'a>)
        ensures
            r.path@ == path@,
            r.freq == 1,
            r.batches_per_eval is None,
    {
        TestDataset { path, freq: 1, batches_per_eval: None }
    }
}

/// Settings that depend on the machine.
pub struct LocalSettings<'a> {
    /// Number of threads to make available for training, in addition to the main trainer thread
    /// (used only for loading data if training with GPU).
    pub threads: usize,
    /// Path to a test dataset, will calculate validation loss over this dataset.
    pub test_set: Option<TestDataset<'a>>,
    /// Directory to write checkpoints to.
    pub output_directory: &'a str,
    /// Number of batches that the dataloader can prepare and put in a queue before they are
    /// processed in training.
    pub batch_queue_size: usize,
}

/// The lines that show the validation settings.
pub open spec fn validation_lines(test_set: Option<TestDataset>) -> Seq<Seq<SpanView>> {
    match test_set {
        None => seq![],
        Some(set) => {
            let interval = seq![
                plain("Validation Interval    : "@),
                styled(decimal_chars(set.freq as nat), Style::Value),
                plain(" superbatch(es)"@),
            ];
            match set.batches_per_eval {
                None => seq![interval],
                Some(batches) => seq![
                    interval,
                    seq![
                        plain("Validation Batches     : "@),
                        styled(decimal_chars(batches as nat), Style::Value),
                    ],
                ],
            }
        },
    }
}

/// The lines that show all settings.
pub open spec fn settings_lines(settings: LocalSettings) -> Seq<Seq<SpanView>> {
    seq![
        seq![
            plain("Threads                : "@),
            styled(decimal_chars(settings.threads as nat), Style::Value),
        ],
        seq![plain("Output Path            : "@), styled(settings.output_directory@, Style::Path)],
    ] + validation_lines(settings.test_set)
}

/// The lines that announce the validation data set of a run.
pub open spec fn dataset_lines(test_set: Option<TestDataset>) -> Seq<Seq<SpanView>> {
    match test_set {
        None => seq![],
        Some(set) => seq![
            seq![plain("Validation Dataset     : "@), styled(set.path@, Style::Path)],
            seq![
                plain("Validation Frequency   : "@),
                styled(decimal_chars(set.freq as nat), Style::Value),
            ],
        ],
    }
}

impl LocalSettings<'_> {
    /// The settings as lines to print.
    pub fn display(&self) -> (r: Vec<Line>)
        ensures
            lines_view(r@) == settings_lines(*self),
            r@[0]@ == seq![
                SpanView { text: "Threads                : "@, style: Style::Plain },
                SpanView { text: decimal_chars(self.threads as nat), style: Style::Value },
            ],
            r@[1]@ == seq![
                SpanView { text: "Output Path            : "@, style: Style::Plain },
                SpanView { text: self.output_directory@, style: Style::Path },
            ],
            self.test_set is None ==> r.len() == 2,
            self.test_set matches Some(set) ==> {
                &&& r@[2]@ == seq![
                    SpanView { text: "Validation Interval    : "@, style: Style::Plain },
                    SpanView { text: decimal_chars(set.freq as nat), style: Style::Value },
                    SpanView { text: " superbatch(es)"@, style: Style::Plain },
                ]
                &&& match set.batches_per_eval {
                    None => r.len() == 3,
                    Some(batches) => r.len() == 4 && r@[3]@ == seq![
                        SpanView { text: "Validation Batches     : "@, style: Style::Plain },
                        SpanView { text: decimal_chars(batches as nat), style: Style::Value },
                    ],
                }
            },
    {
        let mut lines: Vec<Line> = Vec::new();
        lines.push(
            Line::labelled("Threads                : ", decimal(self.threads), Style::Value),
        );
        lines.push(
            Line::labelled(
                "Output Path            : ",
                self.output_directory.to_owned(),
                Style::Path,
            ),
        );
        if let Some(test_set) = self.test_set {
            let mut interval = Line::labelled(
                "Validation Interval    : ",
                decimal(test_set.freq),
                Style::Value,
            );
            interval.push(" superbatch(es)".to_owned(), Style::Plain);
            assert(interval@ =~= validation_lines(self.test_set)[0]);
            lines.push(interval);
            if let Some(batches) = test_set.batches_per_eval {
                lines.push(
                    Line::labelled("Validation Batches     : ", decimal(batches), Style::Value),
                );
            }
        }
        assert(lines_view(lines@) =~= settings_lines(*self));
        lines
    }

    /// The lines that announce the validation data set, if there is one.
    pub fn display_test_set(&self) -> (r: Vec<Line>)
        ensures
            lines_view(r@) == dataset_lines(self.test_set),
            self.test_set is None ==> r.len() == 0,
            self.test_set matches Some(set) ==> {
                &&& r.len() == 2
                &&& r@[0]@ == seq![
                    SpanView { text: "Validation Dataset     : "@, style: Style::Plain },
                    SpanView { text: set.path@, style: Style::Path },
                ]
                &&& r@[1]@ == seq![
                    SpanView { text: "Validation Frequency   : "@, style: Style::Plain },
                    SpanView { text: decimal_chars(set.freq as nat), style: Style::Value },
                ]
            },
    {
        let mut lines: Vec<Line> = Vec::new();
        if let Some(test_set) = self.test_set {
            lines.push(
                Line::labelled(
                    "Validation Dataset     : ",
                    test_set.path.to_owned(),
                    Style::Path,
                ),
            );
            lines.push(
                Line::labelled("Validation Frequency   : ", decimal(test_set.freq), Style::Value),
            );
        }
        assert(lines_view(lines@) =~= dataset_lines(self.test_set));
        lines
    }
}

} // verus!
