use bullet_lib::checkpoint::{load_order, CheckpointLoad};
use bullet_lib::clip::{clip_assign, clip_backward, Buffer, ClipLaunch, DeviceError};
use bullet_lib::host_batch::{
    DenseInput, HostMatrix, PreparedBatchHost, PreparedData, Shape, SparseInput,
};
use bullet_lib::sgd::{DenseMatrix, InvertedBounds, Operand, SgdParams, SgdStep, SGD};
use bullet_lib::single::Single;

fn single(x: f32) -> Single {
    Single::from_bits(x.to_bits())
}

fn number(x: Single) -> f32 {
    f32::from_bits(x.bits)
}

const SAMPLES: [f32; 17] = [
    0.0,
    -0.0,
    1.0,
    -1.0,
    1.98,
    -1.98,
    f32::EPSILON,
    -f32::EPSILON,
    1.1920930e-7,
    1.0e-40,
    -1.0e-40,
    f32::MIN_POSITIVE,
    f32::MAX,
    f32::MIN,
    f32::INFINITY,
    f32::NEG_INFINITY,
    f32::NAN,
];

#[test]
fn patterns_compare_as_numbers() {
    for a in SAMPLES {
        for b in SAMPLES {
            assert_eq!(single(a).less_than(&single(b)), a < b);
            assert_eq!(single(a).at_least(&single(b)), a >= b);
        }
        assert_eq!(single(a).is_nonzero(), a != 0.0);
        assert_eq!(single(a).exceeds_epsilon(), a.abs() > f32::EPSILON);
        assert_eq!(single(a).negated().bits, (-a).to_bits());
    }
    assert_eq!(number(Single::one()), 1.0);
    assert_eq!(Single::zero().bits, 0.0f32.to_bits());
}

#[test]
fn default_parameters() {
    let params = SgdParams::default();
    assert_eq!(number(params.decay), 0.0);
    assert_eq!(number(params.momentum), 0.0);
    assert!(!params.nesterov);
    assert_eq!(number(params.min_weight), -1.98);
    assert_eq!(number(params.max_weight), 1.98);
}

fn with(decay: f32, momentum: f32, nesterov: bool, min: f32, max: f32) -> SgdParams {
    SgdParams {
        decay: single(decay),
        momentum: single(momentum),
        nesterov,
        min_weight: single(min),
        max_weight: single(max),
    }
}

#[test]
fn inverted_bounds_are_refused() {
    assert_eq!(SGD::new(4, with(0.0, 0.0, false, 1.0, -1.0)).err(), Some(InvertedBounds));
    assert!(SGD::new(4, with(0.0, 0.0, false, 1.0, 1.0)).is_ok());
    assert!(SGD::new(4, with(0.0, 0.0, false, f32::NAN, -1.0)).is_ok());
    assert!(!with(0.0, 0.0, false, f32::NAN, -1.0).bounds_ordered());
    assert!(!with(0.0, 0.0, false, 1.0, -1.0).bounds_ordered());
    assert!(with(0.0, 0.0, false, 1.0, 1.0).bounds_ordered());
}

fn apply(steps: &[SgdStep], weight: &mut f32, grad: &mut f32, velocity: &mut f32) {
    for step in steps {
        let values = [*weight, *grad, *velocity];
        let get = |o: Operand| match o {
            Operand::Weights => values[0],
            Operand::Grads => values[1],
            Operand::Velocity => values[2],
        };
        let (target, value) = match *step {
            SgdStep::MulScalar { target, factor } => (target, get(target) * number(factor)),
            SgdStep::LinearComb { target, alpha, beta, source } => {
                (target, number(alpha) * get(target) + number(beta) * get(source))
            }
            SgdStep::CopyFrom { target, source } => (target, get(source)),
            SgdStep::Clip { target, min, max } => (target, get(target).clamp(number(min), number(max))),
            SgdStep::SetTo { target, value } => (target, number(value)),
        };
        match target {
            Operand::Weights => *weight = value,
            Operand::Grads => *grad = value,
            Operand::Velocity => *velocity = value,
        }
    }
}

fn updated(params: SgdParams, start: (f32, f32, f32)) -> (f32, f32, f32) {
    let sgd = SGD::new(8, params).unwrap();
    let weights = DenseMatrix { size: 8, batch_size: None };
    let update = sgd.update(&weights, single(0.5), single(0.25));
    assert_eq!(update.size, 8);
    let (mut weight, mut grad, mut velocity) = start;
    apply(&update.steps, &mut weight, &mut grad, &mut velocity);
    (weight, grad, velocity)
}

#[test]
fn plain_updates_descend() {
    assert_eq!(updated(with(0.0, 0.0, false, 0.0, 0.0), (1.0, 2.0, 8.0)), (0.75, 1.0, 8.0));
}

#[test]
fn decay_pulls_towards_zero() {
    assert_eq!(updated(with(0.5, 0.0, false, 0.0, 0.0), (1.0, 2.0, 8.0)), (0.625, 1.5, 8.0));
}

#[test]
fn momentum_gathers_gradients() {
    assert_eq!(updated(with(0.0, 0.5, false, 0.0, 0.0), (1.0, 2.0, 8.0)), (-0.25, 5.0, 5.0));
    assert_eq!(updated(with(0.0, 0.5, true, 0.0, 0.0), (1.0, 2.0, 8.0)), (0.125, 3.5, 5.0));
}

#[test]
fn weights_are_held_in_bounds() {
    assert_eq!(updated(with(0.0, 0.0, false, -0.5, 0.5), (1.0, 2.0, 8.0)), (0.5, 1.0, 8.0));
}

#[test]
fn one_sided_bounds_hold_one_side() {
    let below = with(0.0, 0.0, false, f32::NEG_INFINITY, 0.5);
    assert_eq!(updated(below, (1.0, 2.0, 8.0)).0, 0.5);
    assert_eq!(updated(below, (-100.0, 2.0, 8.0)).0, -100.25);
}

#[test]
fn velocity_starts_at_zero() {
    let sgd = SGD::new(8, SgdParams::default()).unwrap();
    let start = sgd.start();
    assert_eq!(start.extent, DenseMatrix { size: 8, batch_size: None });
    assert_eq!(number(start.value), 0.0);
}

#[test]
fn loaded_velocity_sets_the_extent() {
    let mut sgd = SGD::new(8, SgdParams::default()).unwrap();
    sgd.load_velocity(5);
    assert_eq!(sgd.velocity(), DenseMatrix { size: 5, batch_size: None });
    assert_eq!(sgd.params(), SgdParams::default());
    let update = sgd.update(&DenseMatrix { size: 5, batch_size: None }, single(1.0), single(1.0));
    assert_eq!(update.size, 5);
}

#[test]
fn resetting_twice_is_resetting_once() {
    let sgd = SGD::new(8, SgdParams::default()).unwrap();
    let (mut weight, mut grad, mut velocity) = (1.0, 2.0, 3.0);
    apply(&[sgd.reset(), sgd.reset()], &mut weight, &mut grad, &mut velocity);
    assert_eq!((weight, grad, velocity), (1.0, 2.0, 0.0));
}

#[test]
fn reset_clears_the_velocity() {
    let sgd = SGD::new(8, SgdParams::default()).unwrap();
    let (mut weight, mut grad, mut velocity) = (1.0, 2.0, 3.0);
    apply(&[sgd.reset()], &mut weight, &mut grad, &mut velocity);
    assert_eq!((weight, grad, velocity), (1.0, 2.0, 0.0));
    assert_eq!(updated(with(0.0, 0.5, false, 0.0, 0.0), (1.0, 2.0, velocity)).2, 1.0);
}

#[test]
fn parameters_can_be_replaced() {
    let mut sgd = SGD::new(8, SgdParams::default()).unwrap();
    let params = with(0.5, 0.25, true, -1.0, 1.0);
    sgd.set_params(params);
    assert_eq!(sgd.params(), params);
    assert_eq!(sgd.velocity(), DenseMatrix { size: 8, batch_size: None });
}

#[test]
fn velocities_have_their_file() {
    assert_eq!(SGD::checkpoint_file("out/net-3"), "out/net-3/velocity.bin");
}

fn names(list: &[&str]) -> Vec<String> {
    list.iter().map(|s| s.to_string()).collect()
}

#[test]
fn checkpoint_entries_load_by_name() {
    let saved = names(&["l1w", "out", "l0w", "old", "l1w", "l1"]);
    let known = names(&["l0w", "l1w", "l1"]);
    let expected = vec![
        CheckpointLoad { entry: 2, target: 0 },
        CheckpointLoad { entry: 5, target: 2 },
        CheckpointLoad { entry: 0, target: 1 },
        CheckpointLoad { entry: 4, target: 1 },
    ];
    assert_eq!(SGD::load_from_checkpoint(&saved, &known), expected);
    assert_eq!(load_order(&saved, &known), expected);
    assert!(load_order(&saved, &Vec::new()).is_empty());
}

#[test]
fn checkpoint_order_is_that_of_strings() {
    let saved = names(&["b", "\u{e9}", "ab", "", "a", "B", "\u{1f600}", "\u{ffff}", "ab"]);
    let mut sorted: Vec<(String, usize)> =
        saved.iter().enumerate().map(|(i, s)| (s.clone(), i)).collect();
    sorted.sort_by_key(|(id, _)| id.clone());
    let order: Vec<usize> = load_order(&saved, &saved).iter().map(|l| l.entry).collect();
    let expected: Vec<usize> = sorted.iter().map(|(_, i)| *i).collect();
    assert_eq!(order, expected);
}

#[test]
fn clips_stay_inside_buffers() {
    let (short, long) = (Buffer { size: 4 }, Buffer { size: 8 });
    let (min, max) = (single(-1.0), single(1.0));
    let refused = Err(DeviceError::ExpectedIllegalAddressAccess);
    assert_eq!(clip_assign(4, &short, &long, min, max), Ok(ClipLaunch { size: 4, min, max }));
    assert_eq!(clip_assign(5, &short, &long, min, max), refused);
    assert_eq!(clip_assign(5, &long, &short, min, max), refused);
    assert_eq!(
        clip_backward(8, &long, &long, &long, min, max),
        Ok(ClipLaunch { size: 8, min, max })
    );
    assert_eq!(clip_backward(5, &short, &long, &long, min, max), refused);
    assert_eq!(clip_backward(5, &long, &short, &long, min, max), refused);
    assert_eq!(clip_backward(5, &long, &long, &short, min, max), refused);
}

#[test]
fn prepared_batches_are_named() {
    let shape = Shape { rows: 768, cols: 1 };
    let sparse = |v: i32| SparseInput { value: vec![v], max_active: 32, shape };
    let dense = |v: f32| DenseInput { value: vec![v], shape: Shape { rows: 1, cols: 1 } };
    let host = PreparedBatchHost::from(PreparedData {
        batch_size: 1,
        stm: sparse(1),
        nstm: sparse(2),
        buckets: sparse(3),
        targets: dense(0.25),
        weights: dense(0.5),
    });
    assert_eq!(host.batch_size, 1);
    let names: Vec<&str> = host.inputs.iter().map(|(name, _)| name.as_str()).collect();
    assert_eq!(names, vec!["stm", "nstm", "buckets", "targets", "entry_weights"]);
    match &host.inputs[1].1 {
        HostMatrix::Sparse(m) => {
            assert_eq!(m.value, vec![2]);
            assert_eq!(m.batch_size, Some(1));
            assert_eq!(m.max_active, 32);
            assert_eq!(m.shape, shape);
        }
        HostMatrix::Dense(_) => panic!("sparse input expected"),
    }
    match &host.inputs[4].1 {
        HostMatrix::Dense(m) => {
            assert_eq!(m.value, vec![0.5]);
            assert_eq!(m.batch_size, Some(1));
        }
        HostMatrix::Sparse(_) => panic!("dense input expected"),
    }
}
