use std::collections::HashMap;
use vstd::prelude::*;
use p3_matrix::dense::RowMajorMatrix;
use crate::error::TraceError;
use crate::interaction::{column_sum, lemma_multiplicity_sum};
use crate::matrix::{flatten_rows, matrix_height, matrix_values, matrix_width, rows_to_matrix};
use crate::machine::{is_preprocessed_outcome, MachineAir, MachineProgram};
use crate::padding::{
    lemma_padded_rows_pow2, pad_rows_fixed, pad_seq, padded_rows_checked,
};
use crate::record::{count_calls, ExecutionRecord, FunctionCallEvent, Program};

verus! {

/// The number of preprocessed columns of the function-call chip.
pub const NUM_FUNCCALL_PREPROCESSED_COLS: usize = 2;

/// The number of main columns of the function-call chip.
pub const NUM_FUNCCALL_MULT_COLS: usize = 2;

/// The preprocessed columns: one static function per row.
#[derive(Clone, Copy, Default)]
pub struct FunccallPreprocessedCols<T> {
    /// The index of the function.
    pub function: T,
    /// The code offset of the function.
    pub index_by_function: T,
}

/// The main columns: how often the row's function was called in the shard.
#[derive(Clone, Copy, Default)]
pub struct FunccallMultiplicityCols<T> {
    pub shard: T,
    pub multiplicity: T,
}

impl<T: Copy> FunccallPreprocessedCols<T> {
    /// The columns as a row, in the order of the fields.
    pub fn to_row(self) -> (row: [T; 2])
        ensures
            row@ == seq![self.function, self.index_by_function],
    {
        let row: [T; 2] = [self.function, self.index_by_function];
        assert(row@ =~= seq![self.function, self.index_by_function]);
        row
    }

    /// Reads a row of the preprocessed trace as its columns.
    pub fn from_row(row: &[T]) -> (cols: Self)
        requires
            row@.len() == NUM_FUNCCALL_PREPROCESSED_COLS,
        ensures
            cols.function == row@[0],
            cols.index_by_function == row@[1],
    {
        FunccallPreprocessedCols { function: row[0], index_by_function: row[1] }
    }
}

impl<T: Copy> FunccallMultiplicityCols<T> {
    /// The columns as a row, in the order of the fields.
    pub fn to_row(self) -> (row: [T; 2])
        ensures
            row@ == seq![self.shard, self.multiplicity],
    {
        let row: [T; 2] = [self.shard, self.multiplicity];
        assert(row@ =~= seq![self.shard, self.multiplicity]);
        row
    }

    /// Reads a row of the main trace as its columns.
    pub fn from_row(row: &[T]) -> (cols: Self)
        requires
            row@.len() == NUM_FUNCCALL_MULT_COLS,
        ensures
            cols.shard == row@[0],
            cols.multiplicity == row@[1],
    {
        FunccallMultiplicityCols { shard: row[0], multiplicity: row[1] }
    }
}

/// Every event calls a function that the static table of `n` functions holds.
pub open spec fn all_calls_known(events: Seq<FunctionCallEvent>, n: nat) -> bool {
    forall|i: int| 0 <= i < events.len() ==> (#[trigger] events[i]).func_index < n
}

/// The event at position `i` is the first that calls a function outside the
/// static table of `n` functions.
pub open spec fn is_first_unknown_call(events: Seq<FunctionCallEvent>, n: nat, i: int) -> bool {
    &&& 0 <= i < events.len()
    &&& events[i].func_index >= n
    &&& all_calls_known(events.take(i), n)
}

/// The count that `counts` holds for `key`: zero where it holds none.
pub open spec fn count_in(counts: Map<u32, usize>, key: u32) -> nat {
    if counts.contains_key(key) {
        counts[key] as nat
    } else {
        0
    }
}

proof fn lemma_count_calls_step(events: Seq<FunctionCallEvent>, i: int, key: int)
    requires
        0 <= i < events.len(),
    ensures
        count_calls(events.take(i + 1), key) == count_calls(events.take(i), key) + if events[i].func_index
            == key {
            1nat
        } else {
            0nat
        },
{
    assert(events.take(i + 1).drop_last() =~= events.take(i));
}

/// No function is called more often than there are events.
pub proof fn lemma_count_calls_bound(events: Seq<FunctionCallEvent>, key: int)
    ensures
        count_calls(events, key) <= events.len(),
    decreases events.len(),
{
    if events.len() > 0 {
        lemma_count_calls_bound(events.drop_last(), key);
    }
}

/// Groups the events by the function they call and counts each group. An
/// event that calls a function outside the table of `num_functions` functions
/// ends the count with an error that names the first such function.
pub fn count_function_calls(events: &Vec<FunctionCallEvent>, num_functions: usize) -> (r: Result<
    HashMap<u32, usize>,
    TraceError,
>)
    ensures
        match r {
            Ok(counts) => {
                &&& all_calls_known(events@, num_functions as nat)
                &&& forall|key: u32| #[trigger]
                    count_in(counts@, key) == count_calls(events@, key as int)
            },
            Err(e) => exists|i: int| #[trigger]
                is_first_unknown_call(events@, num_functions as nat, i) && e
                    == (TraceError::UnknownFunction { func_index: events@[i].func_index }),
        },
{
    let mut call_counts: HashMap<u32, usize> = HashMap::new();
    let mut i: usize = 0;
    while i < events.len()
        invariant
            i <= events.len(),
            all_calls_known(events@.take(i as int), num_functions as nat),
            forall|key: u32| #[trigger]
                count_in(call_counts@, key) == count_calls(events@.take(i as int), key as int),
        decreases events.len() - i,
    {
        let func_index: u32 = events[i].func_index;
        if func_index as usize >= num_functions {
            assert(is_first_unknown_call(events@, num_functions as nat, i as int));
            return Err(TraceError::UnknownFunction { func_index });
        }
        let count: usize = match call_counts.get(&func_index) {
            Some(count) => *count,
            None => 0,
        };
        let ghost before = call_counts@;
        proof {
            assert(count == count_in(before, func_index));
            lemma_count_calls_bound(events@.take(i as int), func_index as int);
            assert forall|key: u32|
                count_calls(events@.take(i + 1), key as int) == #[trigger] count_calls(
                    events@.take(i as int),
                    key as int,
                ) + if func_index == key {
                    1nat
                } else {
                    0nat
                } by {
                lemma_count_calls_step(events@, i as int, key as int);
            }
        }
        call_counts.insert(func_index, count + 1);
        assert forall|key: u32| #[trigger]
            count_in(call_counts@, key) == count_calls(events@.take(i + 1), key as int) by {
            assert(count_in(before, key) == count_calls(events@.take(i as int), key as int));
        }
        assert(all_calls_known(events@.take(i + 1), num_functions as nat)) by {
            assert forall|j: int| 0 <= j < i + 1 implies (#[trigger] events@.take(i + 1)[j]).func_index
                < num_functions by {
                if j < i {
                    assert(events@.take(i as int)[j] == events@[j]);
                }
            }
        }
        i = i + 1;
    }
    assert(events@.take(i as int) =~= events@);
    Ok(call_counts)
}

/// The preprocessed columns of row `r`: a function of the static table and its
/// offset, or zeros once the table is at its end.
pub open spec fn preprocessed_cols(table: Seq<u32>, r: int) -> FunccallPreprocessedCols<u64> {
    if 0 <= r < table.len() {
        FunccallPreprocessedCols { function: r as u64, index_by_function: table[r] as u64 }
    } else {
        FunccallPreprocessedCols { function: 0, index_by_function: 0 }
    }
}

/// The main columns of row `r`: the shard and the number of calls of function
/// `r` among `events`, or zeros for a row that stands for no function.
pub open spec fn multiplicity_cols(
    events: Seq<FunctionCallEvent>,
    num_functions: nat,
    shard: u32,
    r: int,
) -> FunccallMultiplicityCols<u64> {
    if 0 <= r < num_functions {
        FunccallMultiplicityCols { shard: shard as u64, multiplicity: count_calls(events, r) as u64 }
    } else {
        FunccallMultiplicityCols { shard: 0, multiplicity: 0 }
    }
}

/// The cells of the preprocessed trace of `height` rows, row after row.
pub open spec fn preprocessed_trace_values(table: Seq<u32>, height: nat) -> Seq<u64> {
    Seq::new(
        height * 2,
        |i: int|
            if i % 2 == 0 {
                preprocessed_cols(table, i / 2).function
            } else {
                preprocessed_cols(table, i / 2).index_by_function
            },
    )
}

/// The preprocessed trace of the static table: one row per function and zero
/// rows up to the next power of two, or the error that a table too long for
/// the machine ends with.
pub open spec fn preprocessed_trace(table: Seq<u32>) -> Result<Option<Seq<u64>>, TraceError> {
    match padded_rows_checked(table.len(), None) {
        Ok(height) => Ok(Some(preprocessed_trace_values(table, height as nat))),
        Err(e) => Err(e),
    }
}

/// The cells of the main trace of `height` rows, row after row.
pub open spec fn multiplicity_trace_values(
    events: Seq<FunctionCallEvent>,
    num_functions: nat,
    shard: u32,
    height: nat,
) -> Seq<u64> {
    Seq::new(
        height * 2,
        |i: int|
            if i % 2 == 0 {
                multiplicity_cols(events, num_functions, shard, i / 2).shard
            } else {
                multiplicity_cols(events, num_functions, shard, i / 2).multiplicity
            },
    )
}

proof fn lemma_count_calls_beyond_u32(events: Seq<FunctionCallEvent>, key: int)
    requires
        key > u32::MAX,
    ensures
        count_calls(events, key) == 0,
    decreases events.len(),
{
    if events.len() > 0 {
        lemma_count_calls_beyond_u32(events.drop_last(), key);
    }
}

/// Among the events there is at most one first call of an unknown function.
pub proof fn lemma_first_unknown_call_unique(
    events: Seq<FunctionCallEvent>,
    n: nat,
    i: int,
    j: int,
)
    requires
        is_first_unknown_call(events, n, i),
        is_first_unknown_call(events, n, j),
    ensures
        i == j,
{
    if i < j {
        assert(events.take(j)[i] == events[i]);
    } else if j < i {
        assert(events.take(i)[j] == events[j]);
    }
}

/// The function that the first event outside the table of `n` functions calls.
pub open spec fn first_unknown_call(events: Seq<FunctionCallEvent>, n: nat) -> u32 {
    events[choose|i: int| is_first_unknown_call(events, n, i)].func_index
}

/// The chip that receives the function calls of a shard: one row per function
/// of the program, with the number of times the shard called it.
#[derive(Default)]
pub struct FunccallChip;

impl FunccallChip {
    pub fn new() -> Self {
        FunccallChip {  }
    }
}

impl MachineProgram<u64> for Program {
    fn pc_start(&self) -> (pc: u64)
        ensures
            pc == self.pc_start,
    {
        self.pc_start as u64
    }
}

impl MachineAir for FunccallChip {
    type Record = ExecutionRecord;

    type Program = Program;

    open spec fn spec_width(&self) -> nat {
        NUM_FUNCCALL_MULT_COLS as nat
    }

    /// The chip writes a row for each function of the program, called or not.
    open spec fn has_unconditional_rows(&self) -> bool {
        true
    }

    open spec fn relevant_events(&self, shard: &ExecutionRecord) -> nat {
        shard.function_call_events@.len()
    }

    open spec fn spec_preprocessed_width(&self) -> nat {
        NUM_FUNCCALL_PREPROCESSED_COLS as nat
    }

    /// This chip derives no events for other chips.
    open spec fn spec_dependencies(
        &self,
        input: &ExecutionRecord,
        output: ExecutionRecord,
        fixed_log2_rows: Option<usize>,
    ) -> ExecutionRecord {
        output
    }

    open spec fn spec_min_rows(&self, shard: &ExecutionRecord) -> nat {
        shard.program.num_functions()
    }

    /// An event that calls an unknown function ends generation, before the
    /// shape is looked at. Else row `r` holds the shard and the number of
    /// calls of function `r`, and zero rows pad the trace.
    open spec fn spec_trace(&self, input: &ExecutionRecord, fixed_log2_rows: Option<usize>) -> Result<
        Seq<u64>,
        TraceError,
    > {
        let events = input.function_call_events@;
        let n = input.program.num_functions();
        if !all_calls_known(events, n) {
            Err(TraceError::UnknownFunction { func_index: first_unknown_call(events, n) })
        } else {
            match padded_rows_checked(n, fixed_log2_rows) {
                Ok(height) => Ok(
                    multiplicity_trace_values(
                        events,
                        n,
                        input.public_values.execution_shard,
                        height as nat,
                    ),
                ),
                Err(e) => Err(e),
            }
        }
    }

    fn name(&self) -> (name: String)
        ensures
            name@ == "Funccall"@,
    {
        "Funccall".to_owned()
    }

    fn width(&self) -> (w: usize) {
        NUM_FUNCCALL_MULT_COLS
    }

    fn preprocessed_width(&self) -> (w: usize)
        ensures
            w == NUM_FUNCCALL_PREPROCESSED_COLS,
    {
        NUM_FUNCCALL_PREPROCESSED_COLS
    }

    /// One row per function of `program`, in ascending index: the index and
    /// the code offset. Zero rows pad the trace to the next power of two.
    fn generate_preprocessed_trace(&self, program: &Program) -> (r: Result<
        Option<RowMajorMatrix<u64>>,
        TraceError,
    >)
        ensures
            is_preprocessed_outcome(
                preprocessed_trace(program.index_by_offset@),
                NUM_FUNCCALL_PREPROCESSED_COLS as nat,
                r,
            ),
    {
        let ghost table = program.index_by_offset@;
        let mut rows: Vec<[u64; 2]> = Vec::new();
        let mut func: usize = 0;
        while func < program.index_by_offset.len()
            invariant
                table == program.index_by_offset@,
                func <= table.len(),
                rows@.len() == func,
                forall|r: int|
                    0 <= r < func ==> (#[trigger] rows@[r])@ == seq![
                        preprocessed_cols(table, r).function,
                        preprocessed_cols(table, r).index_by_function,
                    ],
            decreases table.len() - func,
        {
            let cols = FunccallPreprocessedCols {
                function: func as u64,
                index_by_function: program.index_by_offset[func] as u64,
            };
            rows.push(cols.to_row());
            func = func + 1;
        }
        let ghost real_rows = rows@;
        let fill: [u64; 2] = (FunccallPreprocessedCols { function: 0u64, index_by_function: 0u64 }).to_row();
        match pad_rows_fixed(&mut rows, fill, None) {
            Ok(()) => {},
            Err(e) => {
                return Err(e);
            },
        }
        let trace = rows_to_matrix(&rows);
        proof {
            let height = padded_rows_checked(table.len(), None)->Ok_0;
            assert(rows@ == pad_seq(real_rows, fill, height as nat));
            assert(matrix_values(trace) =~= preprocessed_trace_values(table, height as nat)) by {
                assert forall|i: int| 0 <= i < height * 2 implies flatten_rows(rows@)[i]
                    == preprocessed_trace_values(table, height as nat)[i] by {
                    let r = i / 2;
                    if r < table.len() {
                        assert(rows@[r] == real_rows[r]);
                    }
                }
            }
            lemma_padded_rows_pow2(table.len(), None);
            assert(matrix_height(trace) == height);
        }
        Ok(Some(trace))
    }

    /// This chip derives no events for other chips.
    fn generate_dependencies(&self, input: &ExecutionRecord, output: &mut ExecutionRecord)
        ensures
            *final(output) == *old(output),
    {
    }

    fn generate_fixed_trace(
        &self,
        input: &ExecutionRecord,
        output: &mut ExecutionRecord,
        fixed_log2_rows: Option<usize>,
    ) -> (r: Result<RowMajorMatrix<u64>, TraceError>)
        ensures
            *final(output) == *old(output),
            r matches Ok(m) ==> column_sum(
                matrix_values(m),
                NUM_FUNCCALL_MULT_COLS as nat,
                1,
                matrix_height(m),
            ) == input.function_call_events@.len(),
    {
        let ghost events = input.function_call_events@;
        let num_functions: usize = input.program.index_by_offset.len();
        let shard: u32 = input.public_values.execution_shard;
        // The number of times each function is called, by its index.
        let call_counts = match count_function_calls(&input.function_call_events, num_functions) {
            Ok(call_counts) => call_counts,
            Err(e) => {
                proof {
                    let i = choose|i: int| #[trigger]
                        is_first_unknown_call(events, num_functions as nat, i) && e
                            == (TraceError::UnknownFunction { func_index: events[i].func_index });
                    let j = choose|j: int| is_first_unknown_call(events, num_functions as nat, j);
                    lemma_first_unknown_call_unique(events, num_functions as nat, i, j);
                    assert(events.take(i + 1)[i] == events[i]);
                }
                return Err(e);
            },
        };
        let mut rows: Vec<[u64; 2]> = Vec::new();
        let mut i: usize = 0;
        while i < num_functions
            invariant
                i <= num_functions,
                rows@.len() == i,
                events == input.function_call_events@,
                shard == input.public_values.execution_shard,
                forall|key: u32| #[trigger]
                    count_in(call_counts@, key) == count_calls(events, key as int),
                forall|r: int|
                    0 <= r < i ==> (#[trigger] rows@[r])@ == seq![
                        multiplicity_cols(events, num_functions as nat, shard, r).shard,
                        multiplicity_cols(events, num_functions as nat, shard, r).multiplicity,
                    ],
            decreases num_functions - i,
        {
            let multiplicity: usize = if i <= u32::MAX as usize {
                let key: u32 = i as u32;
                assert(count_in(call_counts@, key) == count_calls(events, key as int));
                match call_counts.get(&key) {
                    Some(count) => *count,
                    None => 0,
                }
            } else {
                proof {
                    lemma_count_calls_beyond_u32(events, i as int);
                }
                0
            };
            let cols = FunccallMultiplicityCols {
                shard: shard as u64,
                multiplicity: multiplicity as u64,
            };
            rows.push(cols.to_row());
            i = i + 1;
        }
        let ghost real_rows = rows@;
        let fill: [u64; 2] = (FunccallMultiplicityCols { shard: 0u64, multiplicity: 0u64 }).to_row();
        match pad_rows_fixed(&mut rows, fill, fixed_log2_rows) {
            Ok(()) => {},
            Err(e) => {
                return Err(e);
            },
        }
        let trace = rows_to_matrix(&rows);
        proof {
            let height = padded_rows_checked(num_functions as nat, fixed_log2_rows)->Ok_0;
            let values = multiplicity_trace_values(events, num_functions as nat, shard, height as nat);
            assert(rows@ == pad_seq(real_rows, fill, height as nat));
            assert(matrix_values(trace) =~= values) by {
                assert forall|i: int| 0 <= i < height * 2 implies flatten_rows(rows@)[i]
                    == values[i] by {
                    let r = i / 2;
                    if r < num_functions {
                        assert(rows@[r] == real_rows[r]);
                    }
                }
            }
            lemma_padded_rows_pow2(num_functions as nat, fixed_log2_rows);
            assert(matrix_height(trace) == height);
            assert(events.len() == input.function_call_events.len());
            lemma_multiplicity_sum(events, num_functions as nat, shard, height as nat);
            assert(self.spec_min_rows(input) == num_functions);
        }
        Ok(trace)
    }

    fn included(&self, shard: &ExecutionRecord) -> (b: bool)
        ensures
            b,
    {
        true
    }

    fn min_rows(&self, shard: &ExecutionRecord) -> (n: usize) {
        shard.program.index_by_offset.len()
    }
}

} // verus!
