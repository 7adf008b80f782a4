use vstd::prelude::*;
use crate::function::{
    all_calls_known, multiplicity_trace_values, preprocessed_trace_values, FunccallChip,
    FunccallMultiplicityCols, FunccallPreprocessedCols, NUM_FUNCCALL_MULT_COLS,
    NUM_FUNCCALL_PREPROCESSED_COLS,
};
use crate::function::lemma_count_calls_bound;
use crate::record::{count_calls, FunctionCallEvent};

verus! {

/// A claim on the function-call bus: the key `(function, index_by_function,
/// shard)` and the number of calls that the claiming row accounts for.
#[derive(Clone, Copy, Debug)]
pub struct FunctionCallInteraction<T> {
    pub function: T,
    pub index_by_function: T,
    pub shard: T,
    pub multiplicity: T,
}

impl FunccallChip {
    /// The claim that a row of the chip receives from the bus: the key from
    /// the preprocessed row and the shard, counted by the row's multiplicity.
    pub fn eval<T: Copy>(&self, prep_local: &[T], mult_local: &[T]) -> (claim:
        FunctionCallInteraction<T>)
        requires
            prep_local@.len() == NUM_FUNCCALL_PREPROCESSED_COLS,
            mult_local@.len() == NUM_FUNCCALL_MULT_COLS,
        ensures
            claim.function == prep_local@[0],
            claim.index_by_function == prep_local@[1],
            claim.shard == mult_local@[0],
            claim.multiplicity == mult_local@[1],
    {
        let prep_local: FunccallPreprocessedCols<T> = FunccallPreprocessedCols::from_row(prep_local);
        let mult_local: FunccallMultiplicityCols<T> = FunccallMultiplicityCols::from_row(mult_local);
        FunctionCallInteraction {
            function: prep_local.function,
            index_by_function: prep_local.index_by_function,
            shard: mult_local.shard,
            multiplicity: mult_local.multiplicity,
        }
    }
}

/// The sum of column `col` over the first `rows` rows of a row-major matrix
/// of `width` columns.
pub open spec fn column_sum(values: Seq<u64>, width: nat, col: nat, rows: nat) -> nat
    decreases rows,
{
    if rows == 0 {
        0
    } else {
        column_sum(values, width, col, (rows - 1) as nat) + values[(rows - 1) * width + col] as nat
    }
}

/// The number of calls of `function` that the first `rows` rows of the chip
/// receive: the multiplicities of the rows whose preprocessed key names it.
pub open spec fn received_calls(
    preprocessed: Seq<u64>,
    main: Seq<u64>,
    rows: nat,
    function: int,
) -> nat
    decreases rows,
{
    if rows == 0 {
        0
    } else {
        received_calls(preprocessed, main, (rows - 1) as nat, function) + if preprocessed[2 * (rows
            - 1)] == function {
            main[2 * (rows - 1) + 1] as nat
        } else {
            0nat
        }
    }
}

/// The number of events that call one of the first `n` functions.
pub open spec fn calls_below(events: Seq<FunctionCallEvent>, n: nat) -> nat
    decreases n,
{
    if n == 0 {
        0
    } else {
        calls_below(events, (n - 1) as nat) + count_calls(events, n - 1)
    }
}

proof fn lemma_calls_below_step(events: Seq<FunctionCallEvent>, n: nat)
    requires
        events.len() > 0,
    ensures
        calls_below(events, n) == calls_below(events.drop_last(), n) + if events.last().func_index
            < n {
            1nat
        } else {
            0nat
        },
    decreases n,
{
    if n > 0 {
        lemma_calls_below_step(events, (n - 1) as nat);
    }
}

/// Where every event calls one of the `n` functions, the counts of the
/// functions add up to the number of events.
pub proof fn lemma_calls_below_total(events: Seq<FunctionCallEvent>, n: nat)
    requires
        all_calls_known(events, n),
    ensures
        calls_below(events, n) == events.len(),
    decreases events.len(),
{
    if events.len() == 0 {
        lemma_calls_below_empty(events, n);
    } else {
        let front = events.drop_last();
        assert forall|i: int| 0 <= i < front.len() implies (#[trigger] front[i]).func_index < n by {
            assert(front[i] == events[i]);
        }
        lemma_calls_below_total(front, n);
        lemma_calls_below_step(events, n);
    }
}

proof fn lemma_calls_below_empty(events: Seq<FunctionCallEvent>, n: nat)
    requires
        events.len() == 0,
    ensures
        calls_below(events, n) == 0,
    decreases n,
{
    if n > 0 {
        lemma_calls_below_empty(events, (n - 1) as nat);
    }
}

proof fn lemma_count_calls_unknown(events: Seq<FunctionCallEvent>, n: nat, function: int)
    requires
        all_calls_known(events, n),
        function < 0 || function >= n,
    ensures
        count_calls(events, function) == 0,
    decreases events.len(),
{
    if events.len() > 0 {
        let front = events.drop_last();
        assert forall|i: int| 0 <= i < front.len() implies (#[trigger] front[i]).func_index < n by {
            assert(front[i] == events[i]);
        }
        lemma_count_calls_unknown(front, n, function);
        assert(events.last() == events[events.len() - 1]);
    }
}

proof fn lemma_column_sum_prefix(
    events: Seq<FunctionCallEvent>,
    n: nat,
    shard: u32,
    height: nat,
    rows: nat,
)
    requires
        rows <= height,
        events.len() <= u64::MAX,
    ensures
        column_sum(multiplicity_trace_values(events, n, shard, height), 2, 1, rows) == calls_below(
            events,
            if rows <= n {
                rows
            } else {
                n
            },
        ),
    decreases rows,
{
    if rows > 0 {
        lemma_column_sum_prefix(events, n, shard, height, (rows - 1) as nat);
        lemma_count_calls_bound(events, rows - 1);
    }
}

proof fn lemma_received_calls_prefix(
    table: Seq<u32>,
    events: Seq<FunctionCallEvent>,
    shard: u32,
    height: nat,
    rows: nat,
    function: int,
)
    requires
        rows <= height,
        table.len() <= u64::MAX,
        events.len() <= u64::MAX,
    ensures
        received_calls(
            preprocessed_trace_values(table, height),
            multiplicity_trace_values(events, table.len(), shard, height),
            rows,
            function,
        ) == if 0 <= function < rows && function < table.len() {
            count_calls(events, function)
        } else {
            0
        },
    decreases rows,
{
    if rows > 0 {
        lemma_received_calls_prefix(table, events, shard, height, (rows - 1) as nat, function);
        lemma_count_calls_bound(events, rows - 1);
    }
}

/// The multiplicity column of the chip's trace adds up to the number of
/// function calls of the shard.
pub proof fn lemma_multiplicity_sum(
    events: Seq<FunctionCallEvent>,
    num_functions: nat,
    shard: u32,
    height: nat,
)
    requires
        all_calls_known(events, num_functions),
        num_functions <= height,
        events.len() <= u64::MAX,
    ensures
        column_sum(
            multiplicity_trace_values(events, num_functions, shard, height),
            NUM_FUNCCALL_MULT_COLS as nat,
            1,
            height,
        ) == events.len(),
{
    lemma_column_sum_prefix(events, num_functions, shard, height, height);
    lemma_calls_below_total(events, num_functions);
}

/// The rows that pad the chip's trace hold zeros alone, so they claim nothing
/// from the bus and leave the sum of the multiplicity column as it is.
pub proof fn lemma_padding_rows_neutral(
    events: Seq<FunctionCallEvent>,
    num_functions: nat,
    shard: u32,
    height: nat,
)
    requires
        num_functions <= height,
        events.len() <= u64::MAX,
    ensures
        forall|r: int, c: int|
            num_functions <= r < height && 0 <= c < 2 ==> #[trigger] multiplicity_trace_values(
                events,
                num_functions,
                shard,
                height,
            )[2 * r + c] == 0,
        column_sum(
            multiplicity_trace_values(events, num_functions, shard, height),
            NUM_FUNCCALL_MULT_COLS as nat,
            1,
            height,
        ) == column_sum(
            multiplicity_trace_values(events, num_functions, shard, height),
            NUM_FUNCCALL_MULT_COLS as nat,
            1,
            num_functions,
        ),
{
    lemma_column_sum_prefix(events, num_functions, shard, height, height);
    lemma_column_sum_prefix(events, num_functions, shard, height, num_functions);
}

/// The bus is balanced: for every function, the calls that the rows of the
/// chip receive are as many as the events of the shard that call it.
pub proof fn lemma_bus_balanced(
    table: Seq<u32>,
    events: Seq<FunctionCallEvent>,
    shard: u32,
    height: nat,
    function: int,
)
    requires
        all_calls_known(events, table.len()),
        table.len() <= height,
        table.len() <= u64::MAX,
        events.len() <= u64::MAX,
    ensures
        received_calls(
            preprocessed_trace_values(table, height),
            multiplicity_trace_values(events, table.len(), shard, height),
            height,
            function,
        ) == count_calls(events, function),
{
    lemma_received_calls_prefix(table, events, shard, height, height, function);
    if function < 0 || function >= table.len() {
        lemma_count_calls_unknown(events, table.len(), function);
    }
}

} // verus!
