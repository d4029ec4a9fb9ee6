//! Evaluating positions: the record that a position is parsed from, the steps that run a batch
//! through the graph, and how the outputs are read.
use crate::numeric::larger;
use vstd::prelude::*;
use vstd::string::*;

verus! {

/// A step in running a validation batch through the graph.
#[derive(Clone, Copy, Debug, PartialEq, Eq, Structural)]
pub enum EvalStep {
    /// Copy the batch into the batch that the device already has.
    LoadNewData,
    /// Make a batch on the device, and keep it for later evaluations.
    CreateDeviceBatch,
    /// Connect the device's batch to the graph.
    LoadIntoGraph,
    /// Clear the gradients.
    ZeroGrads,
    /// Run the graph.
    Forward,
    /// Read the summed loss.
    ReadOutput,
}

impl EvalStep {
    /// The graph function that the step executes, if it is one.
    pub fn graph_function(&self) -> (r: Option<&'static str>)
        ensures
            match *self {
                EvalStep::ZeroGrads => r is Some && r->0@ == "zero_grads"@,
                EvalStep::Forward => r is Some && r->0@ == "forward"@,
                _ => r is None,
            },
    {
        match self {
            EvalStep::ZeroGrads => Some("zero_grads"),
            EvalStep::Forward => Some("forward"),
            _ => None,
        }
    }
}

/// How a batch is evaluated: the steps, of which the first that fails ends the evaluation, and
/// the number of positions by which the summed loss is divided.
#[derive(Debug)]
pub struct EvaluationPlan {
    pub steps: Vec<EvalStep>,
    pub divisor: usize,
}

/// The steps that evaluate a batch, where `device_ready` tells whether the device has a batch to
/// copy into.
pub open spec fn evaluation_steps(device_ready: bool) -> Seq<EvalStep> {
    seq![
        if device_ready {
            EvalStep::LoadNewData
        } else {
            EvalStep::CreateDeviceBatch
        },
        EvalStep::LoadIntoGraph,
        EvalStep::ZeroGrads,
        EvalStep::Forward,
        EvalStep::ReadOutput,
    ]
}

/// How to evaluate a batch of `batch_size` positions.
pub fn evaluate_batch(batch_size: usize, device_ready: bool) -> (r: EvaluationPlan)
    ensures
        r.steps@ == evaluation_steps(device_ready),
        r.divisor == larger(batch_size as int, 1),
        r.steps@ == seq![
            if device_ready {
                EvalStep::LoadNewData
            } else {
                EvalStep::CreateDeviceBatch
            },
            EvalStep::LoadIntoGraph,
            EvalStep::ZeroGrads,
            EvalStep::Forward,
            EvalStep::ReadOutput,
        ],
        r.divisor == batch_size || (batch_size == 0 && r.divisor == 1),
{
    let mut steps: Vec<EvalStep> = Vec::new();
    if device_ready {
        steps.push(EvalStep::LoadNewData);
    } else {
        steps.push(EvalStep::CreateDeviceBatch);
    }
    steps.push(EvalStep::LoadIntoGraph);
    steps.push(EvalStep::ZeroGrads);
    steps.push(EvalStep::Forward);
    steps.push(EvalStep::ReadOutput);
    assert(steps@ =~= evaluation_steps(device_ready));
    EvaluationPlan { steps, divisor: batch_size.max(1) }
}

/// The record that the position `fen` is parsed from: the position with a score and a result of
/// zero.
pub fn position_record(fen: &str) -> (r: String)
    ensures
        r@ == fen@ + " | 0 | 0.0"@,
{
    let mut record = fen.to_owned();
    record.append(" | 0 | 0.0");
    record
}

/// What the outputs of the graph are.
#[derive(Clone, Copy, Debug, PartialEq, Eq, Structural)]
pub enum OutputHead {
    /// Logits of a loss, a draw and a win, in that order.
    LossDrawWin,
    /// A single score.
    Score,
}

/// What `outputs` outputs are; no other number of outputs can be read.
pub fn output_head(outputs: usize) -> (r: Option<OutputHead>)
    ensures
        r == if outputs == 3 {
            Some(OutputHead::LossDrawWin)
        } else if outputs == 1 {
            Some(OutputHead::Score)
        } else {
            None
        },
{
    match outputs {
        3 => Some(OutputHead::LossDrawWin),
        1 => Some(OutputHead::Score),
        _ => None,
    }
}

} // verus!
