# bullet_lib

The rules of a value network trainer (NNUE style), written in Verus. The library decides; the code
under `app/` drives devices, files and the console as it says.

| Module | What it holds |
| --- | --- |
| `steps` | the extent of a run |
| `value_loader` | where training data is read from, and the blend point of each batch |
| `validation_loader` | the window of the validation set that an evaluation reads |
| `validation` | when an evaluation is due, what it adds up, where the next one starts |
| `run` | set-up of validation, loss windows, checkpoints |
| `evaluation` | steps of a batch evaluation, reading of outputs |
| `sgd`, `single` | gradient descent as buffer operations; binary32 numbers as bit patterns |
| `checkpoint` | matching of saved entries with parameters |
| `clip` | which clips may be launched on device buffers |
| `host_batch` | prepared batches by graph input |
| `shogi_halfkp` | HalfKP inputs for Shogi |
| `settings`, `text`, `numeric` | settings, console text, integer helpers |

Laws that relate several functions stand beside them as public proof functions. `validation` runs
every `freq` superbatches, counted from the start of the run; `batches_per_eval`, where it is set,
is the number of batches of each evaluation.
