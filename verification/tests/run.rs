use bullet_lib::evaluation::{evaluate_batch, output_head, position_record, EvalStep, OutputHead};
use bullet_lib::run::{
    plan_validation, preamble_heading, validation_context, TrainingRun, ValidationPlan, LOG_RATE,
};
use bullet_lib::settings::{LocalSettings, TestDataset};
use bullet_lib::steps::TrainingSteps;
use bullet_lib::text::{decimal, Line, Style};
use bullet_lib::validation::ValidationContext;

fn steps(per: usize) -> TrainingSteps {
    TrainingSteps { batch_size: 16, batches_per_superbatch: per, start_superbatch: 1, end_superbatch: 7 }
}

fn plain(line: &Line) -> String {
    line.spans.iter().map(|s| s.text.as_str()).collect()
}

fn run(per: usize) -> TrainingRun {
    TrainingRun::new(steps(per), 3, "net", "out")
}

#[test]
fn numerals_have_no_leading_zeros() {
    for n in [0usize, 9, 10, 101, 1_000_000, usize::MAX] {
        assert_eq!(decimal(n), n.to_string());
    }
}

#[test]
fn data_sets_validate_after_every_superbatch() {
    let set = TestDataset::at("data/test.bin");
    assert_eq!(set.path, "data/test.bin");
    assert_eq!(set.freq, 1);
    assert_eq!(set.batches_per_eval, None);
}

#[test]
fn settings_are_displayed() {
    let mut settings = LocalSettings {
        threads: 4,
        test_set: None,
        output_directory: "checkpoints",
        batch_queue_size: 32,
    };
    let lines = settings.display();
    assert_eq!(lines.len(), 2);
    assert_eq!(plain(&lines[0]), "Threads                : 4");
    assert_eq!(lines[0].spans[1].style, Style::Value);
    assert_eq!(plain(&lines[1]), "Output Path            : checkpoints");
    assert_eq!(lines[1].spans[1].style, Style::Path);
    assert!(settings.display_test_set().is_empty());

    settings.test_set = Some(TestDataset { path: "a", freq: 2, batches_per_eval: Some(50) });
    let lines = settings.display();
    assert_eq!(lines.len(), 4);
    assert_eq!(plain(&lines[2]), "Validation Interval    : 2 superbatch(es)");
    assert_eq!(plain(&lines[3]), "Validation Batches     : 50");
    let set = settings.display_test_set();
    assert_eq!(plain(&set[0]), "Validation Dataset     : a");
    assert_eq!(plain(&set[1]), "Validation Frequency   : 2");
}

#[test]
fn styles_have_codes() {
    assert_eq!(Style::Value.code(), Some("31"));
    assert_eq!(Style::Path.code(), Some("32;1"));
    assert_eq!(Style::Heading.code(), Some("34;1"));
    assert_eq!(Style::Warning.code(), Some("33"));
    assert_eq!(Style::Plain.code(), None);
    assert_eq!(Style::Number.code(), None);
    assert_eq!(plain(&preamble_heading()), "Training Preamble");
    assert_eq!(preamble_heading().spans[0].style, Style::Heading);
    assert_eq!(LOG_RATE, 128);
}

#[test]
fn validation_needs_a_set_a_frequency_and_a_loader() {
    let set = TestDataset { path: "a", freq: 3, batches_per_eval: Some(9) };
    let never = TestDataset { freq: 0, ..set };
    assert_eq!(plan_validation(None, true), ValidationPlan::Off);
    assert_eq!(plan_validation(None, false), ValidationPlan::Off);
    assert_eq!(plan_validation(Some(set), false), ValidationPlan::NoLoader);
    assert_eq!(plan_validation(Some(never), false), ValidationPlan::NoLoader);
    assert_eq!(plan_validation(Some(never), true), ValidationPlan::ZeroFrequency);
    assert_eq!(
        plan_validation(Some(set), true),
        ValidationPlan::Every { superbatches: 3, batches_per_eval: Some(9) }
    );
}

#[test]
fn unused_data_sets_are_warned_of() {
    assert_eq!(
        plain(&ValidationPlan::ZeroFrequency.warning().unwrap()),
        "Validation dataset configured with evaluation frequency 0; skipping validation."
    );
    assert_eq!(
        plain(&ValidationPlan::NoLoader.warning().unwrap()),
        "Validation dataset configured but no validation loader supplied; skipping validation."
    );
    assert!(ValidationPlan::Off.warning().is_none());
    assert!(ValidationPlan::Every { superbatches: 1, batches_per_eval: None }.warning().is_none());
}

#[test]
fn validation_runs_every_so_many_superbatches() {
    let per = 5;
    let mut context = Some(validation_context(2, Some(4), steps(per), steps(per), 1, (), ()));
    assert_eq!(context.as_ref().unwrap().loader().batches_per_evaluation(), 4);
    let run = run(per);
    for n in 1..41usize {
        let actions = run.after_batch((n - 1) % per + 1, &mut context);
        assert_eq!(actions.validate, n % per == 0 && (n / per) % 2 == 0);
    }
}

#[test]
fn validation_reads_its_own_steps() {
    let context = validation_context(1, None, steps(5), steps(8), 1, (), ());
    assert_eq!(context.loader().batches_per_evaluation(), 8);
    let empty = validation_context(1, Some(0), steps(5), steps(8), 1, (), ());
    assert_eq!(empty.loader().batches_per_evaluation(), 1);
}

#[test]
fn losses_are_averaged_over_whole_windows() {
    for per in [1usize, 7, 31, 32, 64, 96] {
        let run = run(per);
        let window = per.min(32);
        let mut none: Option<ValidationContext<(), ()>> = None;
        for n in 1..300usize {
            let actions = run.after_batch((n - 1) % per + 1, &mut none);
            assert_eq!(actions.record, if n % window == 0 { Some(window) } else { None });
            assert!(!actions.validate);
        }
    }
}

#[test]
fn long_superbatches_record_at_multiples_of_the_window() {
    let run = run(40);
    let mut none: Option<ValidationContext<(), ()>> = None;
    assert_eq!(run.after_batch(32, &mut none).record, Some(32));
    assert_eq!(run.after_batch(40, &mut none).record, None);
}

#[test]
fn checkpoints_are_saved_at_the_rate_and_at_the_end() {
    let run = run(5);
    let saved: Vec<usize> = (1..8).filter(|&s| run.after_superbatch(s).is_some()).collect();
    assert_eq!(saved, vec![3, 6, 7]);
    let paths = run.after_superbatch(6).unwrap();
    assert_eq!(paths.name, "net-6");
    assert_eq!(paths.path, "out/net-6");
    assert_eq!(paths.log, "out/net-6/log.txt");
    assert_eq!(plain(&paths.line()), "Saved [net-6]");
    assert_ne!(run.after_superbatch(3).unwrap().path, paths.path);
}

#[test]
fn batches_are_evaluated_in_steps() {
    let first = evaluate_batch(0, false);
    assert_eq!(first.divisor, 1);
    assert_eq!(
        first.steps,
        vec![
            EvalStep::CreateDeviceBatch,
            EvalStep::LoadIntoGraph,
            EvalStep::ZeroGrads,
            EvalStep::Forward,
            EvalStep::ReadOutput,
        ]
    );
    let later = evaluate_batch(16, true);
    assert_eq!(later.divisor, 16);
    assert_eq!(later.steps[0], EvalStep::LoadNewData);
    assert_eq!(later.steps[1..], first.steps[1..]);
    assert_eq!(EvalStep::ZeroGrads.graph_function(), Some("zero_grads"));
    assert_eq!(EvalStep::Forward.graph_function(), Some("forward"));
    assert_eq!(EvalStep::ReadOutput.graph_function(), None);
}

#[test]
fn positions_are_parsed_from_records() {
    assert_eq!(position_record("8/8/8 w - -"), "8/8/8 w - - | 0 | 0.0");
}

#[test]
fn outputs_are_told_by_their_number() {
    assert_eq!(output_head(3), Some(OutputHead::LossDrawWin));
    assert_eq!(output_head(1), Some(OutputHead::Score));
    assert_eq!(output_head(0), None);
    assert_eq!(output_head(2), None);
    assert_eq!(output_head(4), None);
}
