use p3_matrix::dense::RowMajorMatrix;
use vstd::prelude::*;
use crate::error::TraceError;
use crate::matrix::{matrix_height, matrix_values, matrix_width};
use crate::padding::{is_pow2, pow2};

verus! {

/// `r` is the outcome that `expected` describes: a matrix of `width` columns
/// that holds those cells, or that error.
pub open spec fn is_outcome(
    expected: Result<Seq<u64>, TraceError>,
    width: nat,
    r: Result<RowMajorMatrix<u64>, TraceError>,
) -> bool {
    match expected {
        Ok(values) => r matches Ok(m) && matrix_values(m) == values && matrix_width(m) == width,
        Err(e) => r matches Err(err) && err == e,
    }
}

/// `r` is the outcome that `expected` describes for a preprocessed trace: a
/// matrix of `width` columns that holds those cells, no matrix, or that error.
pub open spec fn is_preprocessed_outcome(
    expected: Result<Option<Seq<u64>>, TraceError>,
    width: nat,
    r: Result<Option<RowMajorMatrix<u64>>, TraceError>,
) -> bool {
    match expected {
        Ok(Some(values)) => r matches Ok(Some(m)) && matrix_values(m) == values && matrix_width(m)
            == width,
        Ok(None) => r matches Ok(None),
        Err(e) => r matches Err(err) && err == e,
    }
}

/// Generation is deterministic: two runs that have the same described outcome
/// end in the same error, or in matrices of the same width with the same cells.
pub proof fn lemma_generation_deterministic(
    expected: Result<Seq<u64>, TraceError>,
    width: nat,
    first: Result<RowMajorMatrix<u64>, TraceError>,
    second: Result<RowMajorMatrix<u64>, TraceError>,
)
    requires
        is_outcome(expected, width, first),
        is_outcome(expected, width, second),
    ensures
        match (first, second) {
            (Ok(a), Ok(b)) => matrix_values(a) == matrix_values(b) && matrix_width(a)
                == matrix_width(b),
            (Err(a), Err(b)) => a == b,
            _ => false,
        },
{
}

/// Preprocessing is deterministic: two runs that have the same described
/// outcome end in the same error, both without a matrix, or in matrices of the
/// same width with the same cells.
pub proof fn lemma_preprocessing_deterministic(
    expected: Result<Option<Seq<u64>>, TraceError>,
    width: nat,
    first: Result<Option<RowMajorMatrix<u64>>, TraceError>,
    second: Result<Option<RowMajorMatrix<u64>>, TraceError>,
)
    requires
        is_preprocessed_outcome(expected, width, first),
        is_preprocessed_outcome(expected, width, second),
    ensures
        match (first, second) {
            (Ok(Some(a)), Ok(Some(b))) => matrix_values(a) == matrix_values(b) && matrix_width(a)
                == matrix_width(b),
            (Ok(None), Ok(None)) => true,
            (Err(a), Err(b)) => a == b,
            _ => false,
        },
{
}

/// A chip of a multi-table arithmetization: it turns the events of a shard
/// into a trace, and the static program into a preprocessed trace.
///
/// A cell of a trace holds the canonical integer of a field element, so a
/// chip serves every field that has room for its values.
pub trait MachineAir: Send + Sync {
    /// The execution record that holds the events of a shard.
    type Record;

    type Program: MachineProgram<u64>;

    /// The number of columns of the main trace.
    spec fn spec_width(&self) -> nat;

    /// Whether the chip writes rows for a shard that holds none of its events.
    spec fn has_unconditional_rows(&self) -> bool;

    /// The number of events of `shard` that the chip consumes.
    spec fn relevant_events(&self, shard: &Self::Record) -> nat;

    /// The least number of rows that the trace of `shard` needs.
    spec fn spec_min_rows(&self, shard: &Self::Record) -> nat;

    /// The trace of `input` under the shape `fixed_log2_rows`, as its cells row
    /// after row, or the error that generation ends with.
    spec fn spec_trace(&self, input: &Self::Record, fixed_log2_rows: Option<usize>) -> Result<
        Seq<u64>,
        TraceError,
    >;

    /// The number of columns of the preprocessed trace, where the chip has one.
    spec fn spec_preprocessed_width(&self) -> nat;

    /// The record `output` once the events that the chip derives from `input`
    /// under the shape `fixed_log2_rows` are appended to it.
    spec fn spec_dependencies(
        &self,
        input: &Self::Record,
        output: Self::Record,
        fixed_log2_rows: Option<usize>,
    ) -> Self::Record;

    /// A unique identifier for this chip as part of a machine.
    fn name(&self) -> String;

    /// The number of columns of the main trace.
    fn width(&self) -> (w: usize)
        ensures
            w == self.spec_width(),
    ;

    /// Generates the trace of `input`. With a fixed `fixed_log2_rows = k` it has
    /// exactly `2^k` rows, else the next power of two that holds its rows.
    /// Events that the chip derives for other chips are appended to `output`.
    fn generate_fixed_trace(
        &self,
        input: &Self::Record,
        output: &mut Self::Record,
        fixed_log2_rows: Option<usize>,
    ) -> (r: Result<RowMajorMatrix<u64>, TraceError>)
        ensures
            is_outcome(self.spec_trace(input, fixed_log2_rows), self.spec_width(), r),
            *final(output) == self.spec_dependencies(input, *old(output), fixed_log2_rows),
            r matches Ok(m) ==> {
                &&& matrix_values(m).len() == matrix_height(m) * self.spec_width()
                &&& is_pow2(matrix_height(m))
                &&& matrix_height(m) >= self.spec_min_rows(input)
                &&& fixed_log2_rows matches Some(k) ==> matrix_height(m) == pow2(k as nat)
            },
            fixed_log2_rows matches Some(k) && pow2(k as nat) < self.spec_min_rows(input) ==> r is Err,
    ;

    /// Generates the trace of `input`, padded to the next power of two.
    fn generate_trace(&self, input: &Self::Record, output: &mut Self::Record) -> (r: Result<
        RowMajorMatrix<u64>,
        TraceError,
    >)
        ensures
            is_outcome(self.spec_trace(input, None), self.spec_width(), r),
            *final(output) == self.spec_dependencies(input, *old(output), None),
            r matches Ok(m) ==> {
                &&& matrix_values(m).len() == matrix_height(m) * self.spec_width()
                &&& is_pow2(matrix_height(m))
            },
    {
        self.generate_fixed_trace(input, output, None)
    }

    /// Appends to `output` the events that the chip derives from `input`: the
    /// same events that generating its trace without a fixed shape appends.
    fn generate_dependencies(&self, input: &Self::Record, output: &mut Self::Record)
        ensures
            *final(output) == self.spec_dependencies(input, *old(output), None),
    {
        let _ = self.generate_trace(input, output);
    }

    /// Whether `shard` holds events for this chip. A chip that writes no
    /// unconditional rows is left out exactly when the shard holds none.
    fn included(&self, shard: &Self::Record) -> (b: bool)
        ensures
            !self.has_unconditional_rows() ==> (b <==> self.relevant_events(shard) > 0),
    ;

    /// The least number of rows that the trace of `shard` needs.
    fn min_rows(&self, shard: &Self::Record) -> (n: usize)
        ensures
            n == self.spec_min_rows(shard),
    ;

    /// The number of columns of the preprocessed trace. A chip that does not
    /// say otherwise has none.
    fn preprocessed_width(&self) -> (w: usize)
        default_ensures
            w == 0,
    {
        0
    }

    /// Generates the preprocessed trace of `program`, if the chip has one. A
    /// chip that does not say otherwise has none, whatever the program.
    fn generate_preprocessed_trace(&self, program: &Self::Program) -> (r: Result<
        Option<RowMajorMatrix<u64>>,
        TraceError,
    >)
        ensures
            r matches Ok(Some(m)) ==> {
                &&& matrix_width(m) == self.spec_preprocessed_width()
                &&& matrix_values(m).len() == matrix_height(m) * self.spec_preprocessed_width()
                &&& is_pow2(matrix_height(m))
            },
        default_ensures
            r matches Ok(None),
    {
        Ok(None)
    }
}

/// A program that a machine can start.
pub trait MachineProgram<F>: Send + Sync {
    /// The address at which execution starts, as a cell of a trace.
    fn pc_start(&self) -> F;
}

} // verus!
