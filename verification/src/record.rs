use std::sync::Arc;
use vstd::prelude::*;

verus! {

/// The static code under proof: the table that maps each function, by its
/// index, to its code offset, and the start address.
pub struct Program {
    /// The code offset of each function, in ascending function index.
    pub index_by_offset: Vec<u32>,
    /// The address at which execution starts.
    pub pc_start: u32,
    /// The address of the first instruction.
    pub pc_base: u32,
}

impl Program {
    pub fn new(index_by_offset: Vec<u32>, pc_start: u32, pc_base: u32) -> (program: Program)
        ensures
            program.index_by_offset@ == index_by_offset@,
            program.pc_start == pc_start,
            program.pc_base == pc_base,
    {
        Program { index_by_offset, pc_start, pc_base }
    }

    /// The number of functions in the static table.
    pub open spec fn num_functions(&self) -> nat {
        self.index_by_offset@.len()
    }
}

impl Default for Program {
    fn default() -> (program: Program)
        ensures
            program.index_by_offset@ == Seq::<u32>::empty(),
            program.pc_start == 0,
            program.pc_base == 0,
    {
        Program { index_by_offset: Vec::new(), pc_start: 0, pc_base: 0 }
    }
}

/// The fact that the function with index `func_index` was called.
#[derive(Clone, Copy, Debug, PartialEq, Eq, Structural)]
pub struct FunctionCallEvent {
    pub func_index: u32,
}

/// The values of a shard that the verifier sees.
#[derive(Clone, Copy, Debug, PartialEq, Eq, Structural)]
pub struct PublicValues {
    /// The index of the shard.
    pub execution_shard: u32,
}

/// The events of one shard of an execution, in the order in which they
/// happened, with the program they belong to.
pub struct ExecutionRecord {
    pub program: Arc<Program>,
    /// One event per function call, in execution order.
    pub function_call_events: Vec<FunctionCallEvent>,
    pub public_values: PublicValues,
}

impl Default for ExecutionRecord {
    fn default() -> (record: ExecutionRecord)
        ensures
            record.program.index_by_offset@ == Seq::<u32>::empty(),
            record.function_call_events@ == Seq::<FunctionCallEvent>::empty(),
            record.public_values.execution_shard == 0,
    {
        ExecutionRecord {
            program: Arc::new(Program::default()),
            function_call_events: Vec::new(),
            public_values: PublicValues { execution_shard: 0 },
        }
    }
}

/// The number of events in `events` that call the function with index `key`.
pub open spec fn count_calls(events: Seq<FunctionCallEvent>, key: int) -> nat
    decreases events.len(),
{
    if events.len() == 0 {
        0
    } else {
        count_calls(events.drop_last(), key) + if events.last().func_index == key {
            1nat
        } else {
            0nat
        }
    }
}

} // verus!
