use bullet_lib::steps::TrainingSteps;
use bullet_lib::validation_loader::ValidationDataLoader;
use bullet_lib::value_loader::ValueDataLoader;

fn steps(batches_per_superbatch: usize, start_superbatch: usize, end_superbatch: usize) -> TrainingSteps {
    TrainingSteps { batch_size: 16, batches_per_superbatch, start_superbatch, end_superbatch }
}

fn validation(
    batches_per_superbatch: usize,
    start_superbatch: usize,
    end_superbatch: usize,
) -> ValidationDataLoader<&'static str, u8> {
    let steps = steps(batches_per_superbatch, start_superbatch, end_superbatch);
    ValidationDataLoader::new("loader", steps, 3, 7, 40)
}

#[test]
fn training_starts_behind_earlier_superbatches() {
    let loader = ValueDataLoader { dataloader: (), steps: steps(10, 4, 9), threads: 2, wdl: () };
    let feed = loader.map_batches(16);
    assert_eq!(feed.start_batch(), 30);
    assert_eq!(feed.batch_size(), 16);
    assert_eq!(feed.threads(), 2);
    let point = feed.blend_point();
    assert_eq!((point.batch_no, point.superbatch, point.end_superbatch), (0, 1, 9));
}

#[test]
fn training_cursor_is_quotient_and_remainder() {
    for per in 1..5usize {
        let loader = ValueDataLoader { dataloader: (), steps: steps(per, 1, 9), threads: 1, wdl: () };
        let mut feed = loader.map_batches(16);
        for n in 0..40usize {
            let point = feed.blend_point();
            assert_eq!(point.batch_no, n % per);
            assert_eq!(point.superbatch, 1 + n / per);
            feed.advance();
        }
    }
}

#[test]
fn validation_counts_batches() {
    let loader = validation(5, 3, 6);
    assert_eq!(loader.batches_per_evaluation(), 5);
    assert_eq!(loader.batches_per_cycle(), 20);
    assert_eq!(loader.start_offset_batches(), 10);
    assert_eq!(*loader.dataloader(), "loader");
    assert_eq!(*loader.wdl(), 7);
}

#[test]
fn validation_has_at_least_one_batch() {
    let loader = validation(0, 0, 0);
    assert_eq!(loader.batches_per_evaluation(), 1);
    assert_eq!(loader.batches_per_cycle(), 1);
    assert_eq!(loader.start_offset_batches(), 0);
    let backwards = validation(4, 9, 2);
    assert_eq!(backwards.batches_per_cycle(), 4);
    assert_eq!(backwards.start_offset_batches(), 32);
}

#[test]
fn validation_counts_saturate() {
    let loader = validation(usize::MAX, 3, 6);
    assert_eq!(loader.batches_per_cycle(), usize::MAX);
    assert_eq!(loader.start_offset_batches(), usize::MAX);
    let whole = validation(2, 0, usize::MAX);
    assert_eq!(whole.batches_per_cycle(), usize::MAX);
}

#[test]
fn validation_clone_keeps_its_settings() {
    let loader = validation(5, 3, 6);
    let copy = loader.clone();
    assert_eq!(copy.batches_per_cycle(), 20);
    assert_eq!(*copy.dataloader(), "loader");
    assert_eq!(*copy.wdl(), 7);
}

#[test]
fn windows_repeat_with_the_cycle() {
    let loader = validation(5, 3, 6);
    for start in [0usize, 7, 19] {
        assert_eq!(loader.map_prepared_batches(start, 1).unwrap().start_batch(), 10 + start);
        assert_eq!(loader.map_prepared_batches(start + 20, 1).unwrap().start_batch(), 10 + start);
    }
}

#[test]
fn empty_batches_are_not_evaluated() {
    let mut steps = steps(5, 1, 6);
    steps.batch_size = 0;
    let loader = ValidationDataLoader::new((), steps, 3, (), 40);
    assert!(loader.map_prepared_batches(0, 1).is_none());
}

#[test]
fn feed_takes_batches_up_to_its_limit() {
    let mut feed = validation(3, 1, 6).map_prepared_batches(0, 2).unwrap();
    assert_eq!(feed.batch_size(), 16);
    for n in 0..3usize {
        let ticket = feed.offer().unwrap();
        assert_eq!((ticket.number, ticket.batch_index), (n + 1, n));
        assert_eq!((ticket.superbatch, ticket.max_superbatch, ticket.threads), (2, 40, 3));
        assert_eq!(feed.deliver(false), n == 2);
    }
    assert!(feed.offer().is_none());
}

#[test]
fn feed_stops_when_asked() {
    let mut feed = validation(3, 1, 6).map_prepared_batches(0, 2).unwrap();
    assert!(feed.offer().is_some());
    assert!(feed.deliver(true));
    assert!(feed.offer().is_none());
}

#[test]
fn last_superbatch_is_at_least_one() {
    let loader = ValidationDataLoader::new((), steps(3, 1, 6), 1, (), 0);
    let mut feed = loader.map_prepared_batches(0, 2).unwrap();
    assert_eq!(feed.offer().unwrap().max_superbatch, 1);
}
