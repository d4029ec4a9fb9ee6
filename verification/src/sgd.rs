//! Stochastic gradient descent: the buffer operations of an update, and when parameters are
//! accepted.
use crate::checkpoint::{is_load_order, load_order, CheckpointLoad};
use crate::single::{
    lemma_epsilon_is_numeric, lemma_one_and_opposite, lemma_order_is_numeric,
    lemma_zero_is_numeric, Single,
};
use vstd::prelude::*;
use vstd::string::*;

verus! {

/// The parameters of gradient descent.
#[derive(Clone, Copy, Debug, PartialEq, Eq, Structural)]
pub struct SgdParams {
    pub decay: Single,
    pub momentum: Single,
    pub nesterov: bool,
    pub min_weight: Single,
    pub max_weight: Single,
}

impl Default for SgdParams {
    /// Neither decay nor momentum, and weights between -1.98 and 1.98.
    fn default() -> (r: Self)
        ensures
            r.decay.bits == 0,
            r.momentum.bits == 0,
            !r.nesterov,
            r.min_weight.bits == 0xbffd_70a4,
            r.max_weight.bits == 0x3ffd_70a4,
    {
        SgdParams {
            decay: Single::zero(),
            momentum: Single::zero(),
            nesterov: false,
            min_weight: Single::from_bits(0xbffd_70a4),
            max_weight: Single::from_bits(0x3ffd_70a4),
        }
    }
}

impl SgdParams {
    /// Whether updates decay the weights.
    pub open spec fn decays(self) -> bool {
        self.decay.nan() || self.decay.rank() != 0
    }

    /// Whether updates have momentum.
    pub open spec fn has_momentum(self) -> bool {
        !self.momentum.nan() && self.momentum.magnitude() > crate::single::EPSILON_MAGNITUDE
    }

    /// Whether updates clip the weights.
    pub open spec fn clips(self) -> bool {
        self.min_weight.lt(self.max_weight)
    }

    /// Whether the bounds on weights are in order. Bounds that are not numbers are not.
    pub fn bounds_ordered(&self) -> (r: bool)
        ensures
            r == self.max_weight.ge(self.min_weight),
    {
        self.max_weight.at_least(&self.min_weight)
    }
}

/// The extent of a dense matrix.
#[derive(Clone, Copy, Debug, PartialEq, Eq, Structural)]
pub struct DenseMatrix {
    /// Values of one matrix.
    pub size: usize,
    /// Matrices in the batch, where there is a batch.
    pub batch_size: Option<usize>,
}

/// A buffer that an update works on.
#[derive(Clone, Copy, Debug, PartialEq, Eq, Structural)]
pub enum Operand {
    Weights,
    Grads,
    Velocity,
}

/// An operation on whole buffers, value by value.
#[derive(Clone, Copy, Debug, PartialEq, Eq, Structural)]
pub enum SgdStep {
    /// Multiplies `target` by `factor`.
    MulScalar { target: Operand, factor: Single },
    /// Sets `target` to `alpha` times itself plus `beta` times `source`.
    LinearComb { target: Operand, alpha: Single, beta: Single, source: Operand },
    /// Sets `target` to `source`.
    CopyFrom { target: Operand, source: Operand },
    /// Holds `target` between `min` and `max`.
    Clip { target: Operand, min: Single, max: Single },
    /// Sets `target` to `value`.
    SetTo { target: Operand, value: Single },
}

/// The operations of an update, on the first `size` values of each buffer.
#[derive(Debug)]
pub struct SgdUpdate {
    pub size: usize,
    pub steps: Vec<SgdStep>,
}

/// How a velocity begins: a matrix of the given extent, all of it `value`.
#[derive(Clone, Copy, Debug, PartialEq, Eq, Structural)]
pub struct VelocityStart {
    pub extent: DenseMatrix,
    pub value: Single,
}

/// The parameters were refused because the largest weight is below the smallest.
#[derive(Clone, Copy, Debug, PartialEq, Eq, Structural)]
pub struct InvertedBounds;

/// The state of gradient descent on one parameter of the model.
#[derive(Debug)]
pub struct SGD {
    velocity: DenseMatrix,
    params: SgdParams,
}

/// What an [`SGD`] holds.
pub ghost struct SgdView {
    pub velocity: DenseMatrix,
    pub params: SgdParams,
}

impl View for SGD {
    type V = SgdView;

    closed spec fn view(&self) -> SgdView {
        SgdView { velocity: self.velocity, params: self.params }
    }
}

/// The number one.
pub open spec fn one() -> Single {
    Single { bits: 0x3f80_0000 }
}

/// The operations of an update with the given factor on gradients and learning rate, in order.
pub open spec fn update_steps(
    params: SgdParams,
    gradient_factor: Single,
    learning_rate: Single,
) -> Seq<SgdStep> {
    let scale = seq![SgdStep::MulScalar { target: Operand::Grads, factor: gradient_factor }];
    let decay = if params.decays() {
        seq![
            SgdStep::LinearComb {
                target: Operand::Grads,
                alpha: one(),
                beta: params.decay,
                source: Operand::Weights,
            },
        ]
    } else {
        seq![]
    };
    let momentum = if params.has_momentum() {
        seq![
            SgdStep::MulScalar { target: Operand::Velocity, factor: params.momentum },
            SgdStep::LinearComb {
                target: Operand::Velocity,
                alpha: one(),
                beta: one(),
                source: Operand::Grads,
            },
            if params.nesterov {
                SgdStep::LinearComb {
                    target: Operand::Grads,
                    alpha: one(),
                    beta: params.momentum,
                    source: Operand::Velocity,
                }
            } else {
                SgdStep::CopyFrom { target: Operand::Grads, source: Operand::Velocity }
            },
        ]
    } else {
        seq![]
    };
    let descend = seq![
        SgdStep::LinearComb {
            target: Operand::Weights,
            alpha: one(),
            beta: learning_rate.opposite(),
            source: Operand::Grads,
        },
    ];
    let clip = if params.clips() {
        seq![
            SgdStep::Clip {
                target: Operand::Weights,
                min: params.min_weight,
                max: params.max_weight,
            },
        ]
    } else {
        seq![]
    };
    scale + decay + momentum + descend + clip
}

impl SGD {
    /// The velocity is one matrix, and the bounds on weights are not inverted.
    pub open spec fn wf(&self) -> bool {
        &&& self@.velocity.batch_size is None
        &&& !self@.params.max_weight.lt(self@.params.min_weight)
    }

    /// The state for `size` weights, unless the bounds on weights are inverted.
    pub fn new(size: usize, params: SgdParams) -> (r: Result<Self, InvertedBounds>)
        ensures
            r is Err <==> params.max_weight.lt(params.min_weight),
            r matches Ok(sgd) ==> sgd.wf() && sgd@ == (SgdView {
                velocity: DenseMatrix { size, batch_size: None },
                params,
            }),
    {
        if params.max_weight.less_than(&params.min_weight) {
            return Err(InvertedBounds);
        }
        Ok(SGD { velocity: DenseMatrix { size, batch_size: None }, params })
    }

    /// How the velocity begins: at zero.
    pub fn start(&self) -> (r: VelocityStart)
        ensures
            r == (VelocityStart { extent: self@.velocity, value: Single { bits: 0 } }),
    {
        VelocityStart { extent: self.velocity, value: Single::zero() }
    }

    /// Notes that the velocity was replaced by one matrix of `size` values.
    pub fn load_velocity(&mut self, size: usize)
        requires
            old(self).wf(),
        ensures
            final(self).wf(),
            final(self)@ == (SgdView {
                velocity: DenseMatrix { size, batch_size: None },
                ..old(self)@
            }),
    {
        self.velocity = DenseMatrix { size, batch_size: None };
    }

    /// The extent of the velocity.
    pub fn velocity(&self) -> (r: DenseMatrix)
        ensures
            r == self@.velocity,
    {
        self.velocity
    }

    /// The current parameters.
    pub fn params(&self) -> (r: SgdParams)
        ensures
            r == self@.params,
    {
        self.params
    }

    /// The operations that update `weights`, in order.
    pub fn update(
        &self,
        weights: &DenseMatrix,
        gradient_factor: Single,
        learning_rate: Single,
    ) -> (r: SgdUpdate)
        requires
            self.wf(),
            weights.batch_size is None,
            weights.size == self@.velocity.size,
        ensures
            r.size == weights.size,
            r.steps@ == update_steps(self@.params, gradient_factor, learning_rate),
            r.steps@[0] == (SgdStep::MulScalar {
                target: Operand::Grads,
                factor: gradient_factor,
            }),
            self@.params.decay.bits % 0x8000_0000 != 0 ==> r.steps@[1] == (SgdStep::LinearComb {
                target: Operand::Grads,
                alpha: Single { bits: 0x3f80_0000 },
                beta: self@.params.decay,
                source: Operand::Weights,
            }),
            ({
                let decay: int = if self@.params.decay.bits % 0x8000_0000 != 0 {
                    1
                } else {
                    0
                };
                let momentum: int = if 0x3400_0000 < self@.params.momentum.bits % 0x8000_0000
                    <= 0x7f80_0000 {
                    3
                } else {
                    0
                };
                let clip: int = if self@.params.min_weight.lt(self@.params.max_weight) {
                    1
                } else {
                    0
                };
                r.steps.len() == 2 + decay + momentum + clip
            }),
    {
        let mut steps: Vec<SgdStep> = Vec::new();
        let params = self.params;
        let momentum = params.momentum;
        let use_momentum: bool = momentum.exceeds_epsilon();

        steps.push(SgdStep::MulScalar { target: Operand::Grads, factor: gradient_factor });

        if params.decay.is_nonzero() {
            steps.push(
                SgdStep::LinearComb {
                    target: Operand::Grads,
                    alpha: Single::one(),
                    beta: params.decay,
                    source: Operand::Weights,
                },
            );
        }
        if use_momentum {
            steps.push(SgdStep::MulScalar { target: Operand::Velocity, factor: momentum });
            steps.push(
                SgdStep::LinearComb {
                    target: Operand::Velocity,
                    alpha: Single::one(),
                    beta: Single::one(),
                    source: Operand::Grads,
                },
            );
            if params.nesterov {
                steps.push(
                    SgdStep::LinearComb {
                        target: Operand::Grads,
                        alpha: Single::one(),
                        beta: momentum,
                        source: Operand::Velocity,
                    },
                );
            } else {
                steps.push(
                    SgdStep::CopyFrom { target: Operand::Grads, source: Operand::Velocity },
                );
            }
        }
        steps.push(
            SgdStep::LinearComb {
                target: Operand::Weights,
                alpha: Single::one(),
                beta: learning_rate.negated(),
                source: Operand::Grads,
            },
        );
        if params.min_weight.less_than(&params.max_weight) {
            steps.push(
                SgdStep::Clip {
                    target: Operand::Weights,
                    min: params.min_weight,
                    max: params.max_weight,
                },
            );
        }
        assert(steps@ =~= update_steps(params, gradient_factor, learning_rate));
        SgdUpdate { size: weights.size, steps }
    }

    /// The operation that forgets the velocity.
    pub fn reset(&self) -> (r: SgdStep)
        ensures
            r == reset_step(),
            r == (SgdStep::SetTo { target: Operand::Velocity, value: Single { bits: 0 } }),
    {
        SgdStep::SetTo { target: Operand::Velocity, value: Single::zero() }
    }

    /// Replaces the parameters by others whose bounds on weights are in order.
    pub fn set_params(&mut self, params: SgdParams)
        requires
            old(self).wf(),
            params.max_weight.ge(params.min_weight),
        ensures
            final(self).wf(),
            final(self)@ == (SgdView { params, ..old(self)@ }),
    {
        self.params = params;
    }

    /// The file in the checkpoint at `path` that holds the velocities.
    pub fn checkpoint_file(path: &str) -> (r: String)
        ensures
            r@ == path@ + "/velocity.bin"@,
    {
        let mut file = path.to_owned();
        file.append("/velocity.bin");
        file
    }

    /// The loads that bring the velocities saved under the names `saved` into the states of the
    /// parameters named `known`.
    pub fn load_from_checkpoint(saved: &Vec<String>, known: &Vec<String>) -> (r: Vec<
        CheckpointLoad,
    >)
        ensures
            is_load_order(saved@, known@, r@, saved.len() as int),
    {
        load_order(saved, known)
    }
}

/// The values that one weight, its gradient and its velocity have.
pub ghost struct Values {
    pub weight: real,
    pub grad: real,
    pub velocity: real,
}

impl Values {
    /// The value in a buffer.
    pub open spec fn get(self, operand: Operand) -> real {
        match operand {
            Operand::Weights => self.weight,
            Operand::Grads => self.grad,
            Operand::Velocity => self.velocity,
        }
    }

    /// The values with the one in a buffer replaced.
    pub open spec fn set(self, operand: Operand, value: real) -> Values {
        match operand {
            Operand::Weights => Values { weight: value, ..self },
            Operand::Grads => Values { grad: value, ..self },
            Operand::Velocity => Values { velocity: value, ..self },
        }
    }
}

/// `x`, held between two bounds that are in order; an infinite bound holds nothing.
pub open spec fn held(x: real, min: Single, max: Single) -> real {
    if min.finite() && x < min.value() {
        min.value()
    } else if max.finite() && x > max.value() {
        max.value()
    } else {
        x
    }
}

/// What an operation does to the values at one place, in exact arithmetic.
pub open spec fn step_effect(step: SgdStep, v: Values) -> Values {
    match step {
        SgdStep::MulScalar { target, factor } => v.set(target, v.get(target) * factor.value()),
        SgdStep::LinearComb { target, alpha, beta, source } => v.set(
            target,
            alpha.value() * v.get(target) + beta.value() * v.get(source),
        ),
        SgdStep::CopyFrom { target, source } => v.set(target, v.get(source)),
        SgdStep::Clip { target, min, max } => v.set(
            target,
            held(v.get(target), min, max),
        ),
        SgdStep::SetTo { target, value } => v.set(target, value.value()),
    }
}

/// What several operations do, one after the other.
pub open spec fn steps_effect(steps: Seq<SgdStep>, v: Values) -> Values
    decreases steps.len(),
{
    if steps.len() == 0 {
        v
    } else {
        step_effect(steps.last(), steps_effect(steps.drop_last(), v))
    }
}

/// The gradient, scaled and with the decay of the weight.
pub open spec fn decayed_grad(params: SgdParams, factor: Single, v: Values) -> real {
    if params.decays() {
        v.grad * factor.value() + params.decay.value() * v.weight
    } else {
        v.grad * factor.value()
    }
}

/// The velocity after an update.
pub open spec fn next_velocity(params: SgdParams, factor: Single, v: Values) -> real {
    if params.has_momentum() {
        v.velocity * params.momentum.value() + decayed_grad(params, factor, v)
    } else {
        v.velocity
    }
}

/// The direction in which an update moves the weight, before the learning rate.
pub open spec fn direction(params: SgdParams, factor: Single, v: Values) -> real {
    if !params.has_momentum() {
        decayed_grad(params, factor, v)
    } else if params.nesterov {
        decayed_grad(params, factor, v) + params.momentum.value() * next_velocity(
            params,
            factor,
            v,
        )
    } else {
        next_velocity(params, factor, v)
    }
}

/// The weight after an update.
pub open spec fn next_weight(
    params: SgdParams,
    factor: Single,
    learning_rate: Single,
    v: Values,
) -> real {
    let moved = v.weight - learning_rate.value() * direction(params, factor, v);
    if params.clips() {
        held(moved, params.min_weight, params.max_weight)
    } else {
        moved
    }
}

proof fn lemma_effect_concat(a: Seq<SgdStep>, b: Seq<SgdStep>, v: Values)
    ensures
        steps_effect(a + b, v) == steps_effect(b, steps_effect(a, v)),
    decreases b.len(),
{
    if b.len() == 0 {
        assert(a + b =~= a);
    } else {
        lemma_effect_concat(a, b.drop_last(), v);
        assert((a + b).drop_last() =~= a + b.drop_last());
        assert((a + b).last() == b.last());
    }
}

proof fn lemma_effect_single(step: SgdStep, v: Values)
    ensures
        steps_effect(seq![step], v) == step_effect(step, v),
{
    assert(seq![step].drop_last() =~= Seq::<SgdStep>::empty());
    assert(steps_effect(Seq::<SgdStep>::empty(), v) == v);
}

/// The operations of an update, one after the other, are gradient descent: the gradient is scaled
/// and the decay added; with momentum the velocity gathers it and gives the direction, looked at
/// one step ahead under Nesterov's rule; the weight moves against the direction by the learning
/// rate and is held within its bounds.
pub proof fn lemma_update_is_descent(
    params: SgdParams,
    factor: Single,
    learning_rate: Single,
    v: Values,
)
    ensures
        steps_effect(update_steps(params, factor, learning_rate), v) == (Values {
            weight: next_weight(params, factor, learning_rate, v),
            grad: direction(params, factor, v),
            velocity: next_velocity(params, factor, v),
        }),
{
    lemma_one_and_opposite(learning_rate);
    let s1 = SgdStep::MulScalar { target: Operand::Grads, factor };
    let scale = seq![s1];
    let s2 = SgdStep::LinearComb {
        target: Operand::Grads,
        alpha: one(),
        beta: params.decay,
        source: Operand::Weights,
    };
    let decay = if params.decays() {
        seq![s2]
    } else {
        seq![]
    };
    let m1 = SgdStep::MulScalar { target: Operand::Velocity, factor: params.momentum };
    let m2 = SgdStep::LinearComb {
        target: Operand::Velocity,
        alpha: one(),
        beta: one(),
        source: Operand::Grads,
    };
    let m3 = if params.nesterov {
        SgdStep::LinearComb {
            target: Operand::Grads,
            alpha: one(),
            beta: params.momentum,
            source: Operand::Velocity,
        }
    } else {
        SgdStep::CopyFrom { target: Operand::Grads, source: Operand::Velocity }
    };
    let momentum = if params.has_momentum() {
        seq![m1, m2, m3]
    } else {
        seq![]
    };
    let s4 = SgdStep::LinearComb {
        target: Operand::Weights,
        alpha: one(),
        beta: learning_rate.opposite(),
        source: Operand::Grads,
    };
    let descend = seq![s4];
    let s5 = SgdStep::Clip {
        target: Operand::Weights,
        min: params.min_weight,
        max: params.max_weight,
    };
    let clip = if params.clips() {
        seq![s5]
    } else {
        seq![]
    };
    assert(update_steps(params, factor, learning_rate) =~= scale + decay + momentum + descend
        + clip);

    let v1 = steps_effect(scale, v);
    lemma_effect_single(s1, v);
    let g = v.grad * factor.value();
    assert(v1 == Values { grad: g, ..v });

    let v2 = steps_effect(scale + decay, v);
    lemma_effect_concat(scale, decay, v);
    if params.decays() {
        lemma_effect_single(s2, v1);
    } else {
        assert(steps_effect(decay, v1) == v1);
    }
    lemma_unit(g);
    assert(v2 == Values { grad: decayed_grad(params, factor, v), ..v });

    let v3 = steps_effect(scale + decay + momentum, v);
    lemma_effect_concat(scale + decay, momentum, v);
    if params.has_momentum() {
        assert(momentum =~= seq![m1] + seq![m2] + seq![m3]);
        lemma_effect_concat(seq![m1] + seq![m2], seq![m3], v2);
        lemma_effect_concat(seq![m1], seq![m2], v2);
        lemma_effect_single(m1, v2);
        let w1 = step_effect(m1, v2);
        lemma_effect_single(m2, w1);
        let w2 = step_effect(m2, w1);
        lemma_effect_single(m3, w2);
        lemma_unit(w1.velocity);
        lemma_unit(w1.grad);
        lemma_unit(w2.grad);
    } else {
        assert(steps_effect(momentum, v2) == v2);
    }
    assert(v3 == Values {
        grad: direction(params, factor, v),
        velocity: next_velocity(params, factor, v),
        ..v
    });

    let v4 = steps_effect(scale + decay + momentum + descend, v);
    lemma_effect_concat(scale + decay + momentum, descend, v);
    lemma_effect_single(s4, v3);
    lemma_unit(v3.weight);
    let d = direction(params, factor, v);
    let lr = learning_rate.value();
    assert(((0 as real) - lr) * d == (0 as real) - lr * d) by (nonlinear_arith);
    assert(v4.weight == v.weight - lr * d);

    lemma_effect_concat(scale + decay + momentum + descend, clip, v);
    if params.clips() {
        lemma_effect_single(s5, v4);
    } else {
        assert(steps_effect(clip, v4) == v4);
    }
}

proof fn lemma_unit(x: real)
    ensures
        (1 as real) * x == x,
{
    assert((1 as real) * x == x) by (nonlinear_arith);
}

/// Where updates clip, every weight ends up within its bounds, of which either may be infinite.
pub proof fn lemma_weights_stay_in_bounds(
    params: SgdParams,
    factor: Single,
    learning_rate: Single,
    v: Values,
)
    requires
        params.clips(),
    ensures
        ({
            let weight = steps_effect(update_steps(params, factor, learning_rate), v).weight;
            &&& params.min_weight.finite() ==> params.min_weight.value() <= weight
            &&& params.max_weight.finite() ==> weight <= params.max_weight.value()
        }),
{
    lemma_update_is_descent(params, factor, learning_rate, v);
    if params.min_weight.finite() && params.max_weight.finite() {
        lemma_order_is_numeric(params.min_weight, params.max_weight);
    }
}

/// The operation that forgets the velocity.
pub open spec fn reset_step() -> SgdStep {
    SgdStep::SetTo { target: Operand::Velocity, value: Single { bits: 0 } }
}

/// A reset forgets the velocity and nothing else: whatever operations follow it do what they do
/// where the velocity is zero. Resetting twice is resetting once.
pub proof fn lemma_reset_forgets(steps: Seq<SgdStep>, v: Values)
    ensures
        step_effect(reset_step(), v) == (Values { velocity: 0 as real, ..v }),
        steps_effect(seq![reset_step()] + steps, v) == steps_effect(
            steps,
            Values { velocity: 0 as real, ..v },
        ),
        steps_effect(seq![reset_step(), reset_step()], v) == steps_effect(seq![reset_step()], v),
{
    lemma_one_and_opposite(one());
    lemma_effect_single(reset_step(), v);
    lemma_effect_concat(seq![reset_step()], steps, v);
    let once = step_effect(reset_step(), v);
    lemma_effect_single(reset_step(), once);
    lemma_effect_concat(seq![reset_step()], seq![reset_step()], v);
    assert(seq![reset_step(), reset_step()] =~= seq![reset_step()] + seq![reset_step()]);
}

/// A velocity begins as a reset leaves it, so that the first update with momentum gathers exactly
/// the gradient.
pub proof fn lemma_start_is_reset(
    start: VelocityStart,
    params: SgdParams,
    factor: Single,
    learning_rate: Single,
    v: Values,
)
    requires
        start.value == (Single { bits: 0 }),
    ensures
        v.set(Operand::Velocity, start.value.value()) == step_effect(reset_step(), v),
        params.has_momentum() ==> steps_effect(
            update_steps(params, factor, learning_rate),
            v.set(Operand::Velocity, start.value.value()),
        ).velocity == decayed_grad(params, factor, v),
{
    let fresh = step_effect(reset_step(), v);
    lemma_one_and_opposite(factor);
    lemma_update_is_descent(params, factor, learning_rate, fresh);
    let m = params.momentum.value();
    assert((0 as real) * m == 0 as real) by (nonlinear_arith);
}

/// Parameters that may replace others may also be started with; and started parameters are
/// clipped with unless their bounds are equal or not numbers.
pub proof fn lemma_replaceable_params_start(params: SgdParams)
    ensures
        params.max_weight.ge(params.min_weight) ==> !params.max_weight.lt(params.min_weight),
        !params.max_weight.lt(params.min_weight) ==> (params.clips() || params.min_weight.nan()
            || params.max_weight.nan() || params.min_weight.rank() == params.max_weight.rank()),
{
}

/// What each operation does to the values at one place.
pub proof fn lemma_operation_meanings(v: Values, a: Single, b: Single)
    ensures
        step_effect(SgdStep::MulScalar { target: Operand::Grads, factor: a }, v) == (Values {
            weight: v.weight,
            grad: v.grad * a.value(),
            velocity: v.velocity,
        }),
        step_effect(SgdStep::MulScalar { target: Operand::Velocity, factor: a }, v) == (Values {
            weight: v.weight,
            grad: v.grad,
            velocity: v.velocity * a.value(),
        }),
        step_effect(
            SgdStep::LinearComb {
                target: Operand::Grads,
                alpha: a,
                beta: b,
                source: Operand::Weights,
            },
            v,
        ) == (Values {
            weight: v.weight,
            grad: a.value() * v.grad + b.value() * v.weight,
            velocity: v.velocity,
        }),
        step_effect(
            SgdStep::LinearComb {
                target: Operand::Grads,
                alpha: a,
                beta: b,
                source: Operand::Velocity,
            },
            v,
        ) == (Values {
            weight: v.weight,
            grad: a.value() * v.grad + b.value() * v.velocity,
            velocity: v.velocity,
        }),
        step_effect(
            SgdStep::LinearComb {
                target: Operand::Velocity,
                alpha: a,
                beta: b,
                source: Operand::Grads,
            },
            v,
        ) == (Values {
            weight: v.weight,
            grad: v.grad,
            velocity: a.value() * v.velocity + b.value() * v.grad,
        }),
        step_effect(
            SgdStep::LinearComb {
                target: Operand::Weights,
                alpha: a,
                beta: b,
                source: Operand::Grads,
            },
            v,
        ) == (Values {
            weight: a.value() * v.weight + b.value() * v.grad,
            grad: v.grad,
            velocity: v.velocity,
        }),
        step_effect(
            SgdStep::CopyFrom { target: Operand::Grads, source: Operand::Velocity },
            v,
        ) == (Values { weight: v.weight, grad: v.velocity, velocity: v.velocity }),
        step_effect(SgdStep::SetTo { target: Operand::Velocity, value: a }, v) == (Values {
            weight: v.weight,
            grad: v.grad,
            velocity: a.value(),
        }),
{
}

/// Clipping gives the number nearest to the weight that is within the bounds.
pub proof fn lemma_clip_is_nearest(min: Single, max: Single, v: Values, other: real)
    requires
        min.finite(),
        max.finite(),
        min.value() <= max.value(),
        min.value() <= other <= max.value(),
    ensures
        ({
            let end = step_effect(SgdStep::Clip { target: Operand::Weights, min, max }, v);
            &&& end.grad == v.grad && end.velocity == v.velocity
            &&& min.value() <= end.weight <= max.value()
            &&& v.weight <= end.weight ==> end.weight <= other || end.weight == v.weight
            &&& v.weight >= end.weight ==> end.weight >= other || end.weight == v.weight
            &&& min.value() <= v.weight <= max.value() ==> end.weight == v.weight
        }),
{
}

/// Operations run one after the other: none changes nothing, and one more does its own work last.
pub proof fn lemma_operations_in_turn(steps: Seq<SgdStep>, step: SgdStep, v: Values)
    ensures
        steps_effect(Seq::empty(), v) == v,
        steps_effect(steps.push(step), v) == step_effect(step, steps_effect(steps, v)),
{
    assert(steps.push(step).drop_last() =~= steps);
}

/// An update in numbers. With finite parameters the gradient that counts is the gradient times its
/// factor plus the decay times the weight, whatever the momentum is; momentum counts exactly where
/// it is further from zero than two to the power of minus 23; and the weight moves against the
/// direction and is clipped exactly where the smallest weight is below the largest.
pub proof fn lemma_update_in_numbers(
    params: SgdParams,
    factor: Single,
    learning_rate: Single,
    v: Values,
)
    requires
        params.decay.finite(),
        params.momentum.finite(),
        params.min_weight.finite(),
        params.max_weight.finite(),
    ensures
        ({
            let end = steps_effect(update_steps(params, factor, learning_rate), v);
            let m = params.momentum.value();
            let lo = params.min_weight.value();
            let hi = params.max_weight.value();
            let g = v.grad * factor.value() + params.decay.value() * v.weight;
            let moved = v.weight - learning_rate.value() * end.grad;
            let strong = m * (0x80_0000 as real) > 1 as real || m * (0x80_0000 as real) < (
            0 as real) - (1 as real);
            &&& strong ==> end.velocity == v.velocity * m + g
            &&& !strong ==> end.velocity == v.velocity
            &&& !strong ==> end.grad == g
            &&& strong && params.nesterov ==> end.grad == g + m * end.velocity
            &&& strong && !params.nesterov ==> end.grad == end.velocity
            &&& lo < hi && moved < lo ==> end.weight == lo
            &&& lo < hi && moved > hi ==> end.weight == hi
            &&& lo >= hi || lo <= moved <= hi ==> end.weight == moved
        }),
{
    lemma_update_is_descent(params, factor, learning_rate, v);
    lemma_decay_in_numbers(params);
    lemma_momentum_in_numbers(params);
    lemma_order_is_numeric(params.min_weight, params.max_weight);
    if !params.decays() {
        let w = v.weight;
        assert((0 as real) * w == 0 as real) by (nonlinear_arith);
    }
}

/// Updates decay the weights exactly where the decay is not a number or stands for a number other
/// than zero, whatever the other parameters are.
pub proof fn lemma_decay_in_numbers(params: SgdParams)
    ensures
        params.decays() <==> params.decay.nan() || params.decay.value() != 0 as real,
{
    lemma_zero_is_numeric(params.decay);
}

/// Updates have momentum exactly where it is a number further from zero than two to the power of
/// minus 23, and clip exactly where the bounds are numbers and the smallest weight is below the
/// largest, whatever the other parameters are.
pub proof fn lemma_momentum_in_numbers(params: SgdParams)
    ensures
        ({
            let m = params.momentum.value() * (0x80_0000 as real);
            params.has_momentum() <==> !params.momentum.nan() && (m > 1 as real || m < (0 as real)
                - (1 as real))
        }),
        params.clips() <==> !params.min_weight.nan() && !params.max_weight.nan()
            && params.min_weight.value() < params.max_weight.value(),
{
    if !params.min_weight.nan() && !params.max_weight.nan() {
        lemma_order_is_numeric(params.min_weight, params.max_weight);
    }
    if !params.momentum.nan() {
        lemma_epsilon_is_numeric(params.momentum);
        let e = (Single { bits: crate::single::EPSILON_MAGNITUDE }).value();
        let f = 0x80_0000 as real;
        let x = params.momentum.value();
        assert((x > e <==> x * f > 1 as real) && (x < (0 as real) - e <==> x * f < (0 as real) - (
        1 as real))) by (nonlinear_arith)
            requires
                e * f == 1 as real,
                f > 0 as real,
        ;
    }
}

} // verus!
