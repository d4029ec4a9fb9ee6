//! Prepared batches in the form in which they are handed to the graph: matrices by input name.
use vstd::prelude::*;
use vstd::string::*;

verus! {

/// The shape of a matrix.
#[derive(Clone, Copy, Debug, PartialEq, Eq, Structural)]
pub struct Shape {
    pub rows: usize,
    pub cols: usize,
}

/// A prepared sparse input.
#[derive(Debug)]
pub struct SparseInput {
    pub value: Vec<i32>,
    pub max_active: usize,
    pub shape: Shape,
}

/// A prepared dense input with values of type `T`.
#[derive(Debug)]
pub struct DenseInput<T> {
    pub value: Vec<T>,
    pub shape: Shape,
}

/// A batch of positions, prepared for training.
#[derive(Debug)]
pub struct PreparedData<T> {
    pub batch_size: usize,
    /// Active inputs of the side to move.
    pub stm: SparseInput,
    /// Active inputs of the opponent.
    pub nstm: SparseInput,
    /// Output buckets.
    pub buckets: SparseInput,
    /// Targets to train towards.
    pub targets: DenseInput<T>,
    /// Weights of the positions in the loss.
    pub weights: DenseInput<T>,
}

/// A batch of sparse matrices in host memory.
#[derive(Debug)]
pub struct HostSparseMatrix {
    pub value: Vec<i32>,
    pub batch_size: Option<usize>,
    pub shape: Shape,
    pub max_active: usize,
}

/// A batch of dense matrices in host memory.
#[derive(Debug)]
pub struct HostDenseMatrix<T> {
    pub value: Vec<T>,
    pub batch_size: Option<usize>,
    pub shape: Shape,
}

/// A batch of matrices in host memory.
#[derive(Debug)]
pub enum HostMatrix<T> {
    Sparse(HostSparseMatrix),
    Dense(HostDenseMatrix<T>),
}

/// A batch in host memory, as matrices by the name of the graph input that each is for.
#[derive(Debug)]
pub struct PreparedBatchHost<T> {
    pub batch_size: usize,
    pub inputs: Vec<(String, HostMatrix<T>)>,
}

/// What a [`PreparedBatchHost`] holds.
pub ghost struct PreparedBatchHostView<T> {
    pub batch_size: nat,
    pub inputs: Seq<(Seq<char>, HostMatrix<T>)>,
}

impl<T> View for PreparedBatchHost<T> {
    type V = PreparedBatchHostView<T>;

    open spec fn view(&self) -> PreparedBatchHostView<T> {
        PreparedBatchHostView {
            batch_size: self.batch_size as nat,
            inputs: self.inputs@.map_values(|m: (String, HostMatrix<T>)| (m.0@, m.1)),
        }
    }
}

/// A sparse input as a batch of matrices.
pub open spec fn sparse_matrix<T>(input: SparseInput, batch_size: usize) -> HostMatrix<T> {
    HostMatrix::Sparse(
        HostSparseMatrix {
            value: input.value,
            batch_size: Some(batch_size),
            shape: input.shape,
            max_active: input.max_active,
        },
    )
}

/// A dense input as a batch of matrices.
pub open spec fn dense_matrix<T>(input: DenseInput<T>, batch_size: usize) -> HostMatrix<T> {
    HostMatrix::Dense(
        HostDenseMatrix {
            value: input.value,
            batch_size: Some(batch_size),
            shape: input.shape,
        },
    )
}

fn sparse_host<T>(input: SparseInput, batch_size: usize) -> (r: HostMatrix<T>)
    ensures
        r == sparse_matrix::<T>(input, batch_size),
        r matches HostMatrix::Sparse(m) && m.value == input.value && m.batch_size == Some(
            batch_size,
        ) && m.shape == input.shape && m.max_active == input.max_active,
{
    let SparseInput { value, max_active, shape } = input;
    HostMatrix::Sparse(HostSparseMatrix { value, batch_size: Some(batch_size), shape, max_active })
}

fn dense_host<T>(input: DenseInput<T>, batch_size: usize) -> (r: HostMatrix<T>)
    ensures
        r == dense_matrix(input, batch_size),
        r matches HostMatrix::Dense(m) && m.value == input.value && m.batch_size == Some(batch_size)
            && m.shape == input.shape,
{
    let DenseInput { value, shape } = input;
    HostMatrix::Dense(HostDenseMatrix { value, batch_size: Some(batch_size), shape })
}

/// The names of the graph inputs of a batch.
pub open spec fn input_names() -> Seq<Seq<char>> {
    seq!["stm"@, "nstm"@, "buckets"@, "targets"@, "entry_weights"@]
}

impl<T> PreparedBatchHost<T> {
    /// The batch as matrices, each under the name of its graph input.
    pub fn from(prepared_data: PreparedData<T>) -> (r: Self)
        ensures
            r@ == (PreparedBatchHostView {
                batch_size: prepared_data.batch_size as nat,
                inputs: seq![
                    (
                        "stm"@,
                        sparse_matrix::<T>(prepared_data.stm, prepared_data.batch_size),
                    ),
                    (
                        "nstm"@,
                        sparse_matrix::<T>(prepared_data.nstm, prepared_data.batch_size),
                    ),
                    (
                        "buckets"@,
                        sparse_matrix::<T>(prepared_data.buckets, prepared_data.batch_size),
                    ),
                    (
                        "targets"@,
                        dense_matrix(prepared_data.targets, prepared_data.batch_size),
                    ),
                    (
                        "entry_weights"@,
                        dense_matrix(prepared_data.weights, prepared_data.batch_size),
                    ),
                ],
            }),
            r@.inputs.map_values(|m: (Seq<char>, HostMatrix<T>)| m.0) == input_names(),
            r.batch_size == prepared_data.batch_size,
            r.inputs.len() == 5,
            r.inputs@[0].0@ == "stm"@,
            r.inputs@[0].1 matches HostMatrix::Sparse(m) && m.value == prepared_data.stm.value
                && m.batch_size == Some(prepared_data.batch_size) && m.shape
                == prepared_data.stm.shape && m.max_active == prepared_data.stm.max_active,
            r.inputs@[1].0@ == "nstm"@,
            r.inputs@[1].1 matches HostMatrix::Sparse(m) && m.value == prepared_data.nstm.value
                && m.batch_size == Some(prepared_data.batch_size) && m.shape
                == prepared_data.nstm.shape && m.max_active == prepared_data.nstm.max_active,
            r.inputs@[2].0@ == "buckets"@,
            r.inputs@[2].1 matches HostMatrix::Sparse(m) && m.value == prepared_data.buckets.value
                && m.batch_size == Some(prepared_data.batch_size) && m.shape
                == prepared_data.buckets.shape && m.max_active == prepared_data.buckets.max_active,
            r.inputs@[3].0@ == "targets"@,
            r.inputs@[3].1 matches HostMatrix::Dense(m) && m.value == prepared_data.targets.value
                && m.batch_size == Some(prepared_data.batch_size) && m.shape
                == prepared_data.targets.shape,
            r.inputs@[4].0@ == "entry_weights"@,
            r.inputs@[4].1 matches HostMatrix::Dense(m) && m.value == prepared_data.weights.value
                && m.batch_size == Some(prepared_data.batch_size) && m.shape
                == prepared_data.weights.shape,
    {
        let ghost data = prepared_data;
        let PreparedData { batch_size, stm, nstm, buckets, targets, weights } = prepared_data;
        let mut inputs: Vec<(String, HostMatrix<T>)> = Vec::new();
        inputs.push(("stm".to_owned(), sparse_host(stm, batch_size)));
        inputs.push(("nstm".to_owned(), sparse_host(nstm, batch_size)));
        inputs.push(("buckets".to_owned(), sparse_host(buckets, batch_size)));
        inputs.push(("targets".to_owned(), dense_host(targets, batch_size)));
        inputs.push(("entry_weights".to_owned(), dense_host(weights, batch_size)));
        let host = PreparedBatchHost { batch_size, inputs };
        assert(host@.inputs =~= seq![
            ("stm"@, sparse_matrix::<T>(data.stm, data.batch_size)),
            ("nstm"@, sparse_matrix::<T>(data.nstm, data.batch_size)),
            ("buckets"@, sparse_matrix::<T>(data.buckets, data.batch_size)),
            ("targets"@, dense_matrix(data.targets, data.batch_size)),
            ("entry_weights"@, dense_matrix(data.weights, data.batch_size)),
        ]);
        assert(host@.inputs.map_values(|m: (Seq<char>, HostMatrix<T>)| m.0) =~= input_names());
        assert(forall|i: int| 0 <= i < 5 ==> #[trigger] host.inputs@[i].0@ == host@.inputs[i].0);
        host
    }
}

/// A sparse input becomes one matrix for each position of the batch, with the values, the shape and
/// the number of active inputs that it was prepared with.
pub proof fn lemma_sparse_matrix_fields<T>(input: SparseInput, batch_size: usize)
    ensures
        sparse_matrix::<T>(input, batch_size) matches HostMatrix::Sparse(m) && m.batch_size == Some(
            batch_size,
        ) && m.value == input.value && m.shape == input.shape && m.max_active == input.max_active,
{
}

/// A dense input becomes one matrix for each position of the batch, with the values and the shape
/// that it was prepared with.
pub proof fn lemma_dense_matrix_fields<T>(input: DenseInput<T>, batch_size: usize)
    ensures
        dense_matrix(input, batch_size) matches HostMatrix::Dense(m) && m.batch_size == Some(
            batch_size,
        ) && m.value == input.value && m.shape == input.shape,
{
}

/// The host form of a batch loses nothing: batches that differ in their size, or in an input, have
/// matrices that differ.
pub proof fn lemma_host_matrices_identify<T>(
    a: SparseInput,
    b: SparseInput,
    c: DenseInput<T>,
    d: DenseInput<T>,
    m: usize,
    n: usize,
)
    ensures
        sparse_matrix::<T>(a, m) == sparse_matrix::<T>(b, n) ==> a == b && m == n,
        dense_matrix(c, m) == dense_matrix(d, n) ==> c == d && m == n,
        sparse_matrix::<T>(a, m) != dense_matrix(c, n),
{
    if sparse_matrix::<T>(a, m) == sparse_matrix::<T>(b, n) {
        assert(sparse_matrix::<T>(a, m)->Sparse_0 == sparse_matrix::<T>(b, n)->Sparse_0);
    }
    if dense_matrix(c, m) == dense_matrix(d, n) {
        assert(dense_matrix(c, m)->Dense_0 == dense_matrix(d, n)->Dense_0);
    }
}

/// No two inputs of a batch share a name, so that none takes the place of another.
pub proof fn lemma_input_names_distinct()
    ensures
        input_names().no_duplicates(),
{
    reveal_strlit("stm");
    reveal_strlit("nstm");
    reveal_strlit("buckets");
    reveal_strlit("targets");
    reveal_strlit("entry_weights");
    assert("buckets"@[0] != "targets"@[0]);
    assert("stm"@.len() == 3 && "nstm"@.len() == 4 && "entry_weights"@.len() == 13);
    assert("buckets"@.len() == 7 && "targets"@.len() == 7);
}

} // verus!
