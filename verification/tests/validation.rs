use bullet_lib::steps::TrainingSteps;
use bullet_lib::text::{Line, Style};
use bullet_lib::validation::{ValidationContext, ValidationReport, ValidationTally};
use bullet_lib::validation_loader::ValidationDataLoader;

fn context(per: usize, start: usize, end: usize, frequency: usize) -> ValidationContext<(), ()> {
    let steps = TrainingSteps {
        batch_size: 16,
        batches_per_superbatch: per,
        start_superbatch: start,
        end_superbatch: end,
    };
    ValidationContext::new(ValidationDataLoader::new((), steps, 1, (), end), frequency)
}

fn plain(line: &Line) -> String {
    line.spans.iter().map(|s| s.text.as_str()).collect()
}

#[test]
fn due_every_interval() {
    for frequency in 1..6usize {
        let mut context = context(3, 1, 4, frequency);
        for n in 1..30usize {
            assert_eq!(context.tick(), n % frequency == 0);
        }
    }
}

#[test]
fn never_due_without_a_frequency() {
    let mut context = context(3, 1, 4, 0);
    for _ in 0..100 {
        assert!(!context.tick());
    }
}

#[test]
fn advancing_wraps_round_the_cycle() {
    let mut context = context(3, 1, 4, 1);
    assert_eq!(context.loader().batches_per_cycle(), 12);
    context.advance_batches(0);
    assert_eq!(context.next_start_batch(), 0);
    context.advance_batches(7);
    assert_eq!(context.next_start_batch(), 7);
    context.advance_batches(7);
    assert_eq!(context.next_start_batch(), 2);
    context.advance_batches(12);
    assert_eq!(context.next_start_batch(), 2);
}

#[test]
fn full_evaluations_tile_the_cycle() {
    let mut context = context(3, 2, 5, 1);
    for k in 0..9usize {
        let mut pass = context.run_validation::<()>(1).unwrap();
        assert_eq!(pass.start_batch(), 3 + 3 * (k % 4));
        while pass.offer().is_some() {
            pass.deliver(16, Ok(()));
        }
        let report = context.finish_validation(Some(pass)).unwrap();
        assert_eq!(report, ValidationReport { batches: 3, positions: 48 });
    }
}

#[test]
fn short_evaluations_count_what_they_found() {
    let mut context = context(5, 1, 4, 1);
    let mut pass = context.run_validation::<()>(1).unwrap();
    assert_eq!(pass.batch_size(), 16);
    assert!(pass.offer().is_some());
    assert!(!pass.deliver(10, Ok(())));
    assert!(pass.offer().is_some());
    assert!(!pass.deliver(0, Ok(())));
    assert_eq!((pass.batches(), pass.positions()), (2, 11));
    let report = context.finish_validation(Some(pass));
    assert_eq!(report, Ok(ValidationReport { batches: 2, positions: 11 }));
    assert_eq!(context.next_start_batch(), 2);
}

#[test]
fn failures_end_an_evaluation_and_leave_its_start() {
    let mut context = context(5, 1, 4, 1);
    context.advance_batches(3);
    let mut pass = context.run_validation::<&str>(1).unwrap();
    assert!(pass.offer().is_some());
    assert!(!pass.deliver(16, Ok(())));
    assert!(pass.offer().is_some());
    assert!(!pass.failed());
    assert!(pass.deliver(16, Err("device lost")));
    assert!(pass.failed());
    assert!(pass.offer().is_none());
    assert_eq!(context.finish_validation(Some(pass)), Err("device lost"));
    assert_eq!(context.next_start_batch(), 3);
}

#[test]
fn evaluations_without_batches_are_empty() {
    let mut context = context(5, 1, 4, 1);
    context.advance_batches(3);
    let report = context.finish_validation::<()>(None).unwrap();
    assert_eq!(report, ValidationReport { batches: 0, positions: 0 });
    assert!(!report.has_loss());
    let pass = context.run_validation::<()>(1);
    assert_eq!(context.finish_validation(pass), Ok(ValidationReport { batches: 0, positions: 0 }));
    assert_eq!(context.next_start_batch(), 3);
}

#[test]
fn tally_keeps_the_first_failure() {
    let mut tally = ValidationTally::new();
    assert!(!tally.record(4, Ok(())));
    assert!(tally.record(4, Err(1)));
    assert!(tally.record(4, Err(2)));
    assert!(tally.record(4, Ok(())));
}

#[test]
fn losses_are_recorded_where_there_are_any() {
    let mut record = vec![(1, 32, 0.5f32)];
    ValidationReport { batches: 4, positions: 64 }.record_loss(&mut record, 2, 30, 0.25);
    assert_eq!(record, vec![(1, 32, 0.5), (2, 30, 0.25)]);
    ValidationReport { batches: 0, positions: 0 }.record_loss(&mut record, 2, 60, 0.0);
    assert_eq!(record, vec![(1, 32, 0.5), (2, 30, 0.25)]);
}

#[test]
fn reports_read_as_lines() {
    let report = ValidationReport { batches: 4, positions: 64 };
    assert!(report.has_loss());
    let line = report.line(2, 30, "0.012345");
    assert_eq!(
        plain(&line),
        "validation superbatch 2 batch 30 | loss 0.012345 | batches 4 | positions 64"
    );
    assert_eq!(line.spans[1].style, Style::Number);
    assert_eq!(line.spans[5].style, Style::Value);
    let none = ValidationReport { batches: 0, positions: 0 }.line(2, 30, "0.000000");
    assert_eq!(
        plain(&none),
        "Validation dataloader produced no batches; skipping loss report for this interval."
    );
    assert_eq!(none.spans[0].style, Style::Warning);
}
