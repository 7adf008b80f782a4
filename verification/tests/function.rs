use std::sync::Arc;

use p3_baby_bear::BabyBear;
use p3_field::{PrimeCharacteristicRing, PrimeField32};
use p3_matrix::dense::RowMajorMatrix;
use p3_matrix::Matrix;
use rwasm_machine::error::TraceError;
use rwasm_machine::function::{
    count_function_calls, FunccallChip, FunccallMultiplicityCols, FunccallPreprocessedCols,
    NUM_FUNCCALL_MULT_COLS, NUM_FUNCCALL_PREPROCESSED_COLS,
};
use rwasm_machine::machine::{MachineAir, MachineProgram};
use rwasm_machine::record::{ExecutionRecord, FunctionCallEvent, Program, PublicValues};

fn calls(indices: &[u32]) -> Vec<FunctionCallEvent> {
    indices.iter().map(|i| FunctionCallEvent { func_index: *i }).collect()
}

fn shard_of(offsets: Vec<u32>, indices: &[u32], shard: u32) -> ExecutionRecord {
    ExecutionRecord {
        program: Arc::new(Program::new(offsets, 0, 0)),
        function_call_events: calls(indices),
        public_values: PublicValues { execution_shard: shard },
    }
}

fn in_baby_bear(trace: &RowMajorMatrix<u64>) -> RowMajorMatrix<BabyBear> {
    RowMajorMatrix::new(
        trace.values.iter().map(|cell| BabyBear::from_u64(*cell)).collect(),
        trace.width,
    )
}

fn column(trace: &RowMajorMatrix<u64>, col: usize) -> Vec<u64> {
    trace.values.chunks(trace.width).map(|row| row[col]).collect()
}

#[test]
fn generate_trace() {
    let instructions = vec![];
    let program = Program::new(instructions, 0, 0);
    let shard = ExecutionRecord { program: Arc::new(program), ..Default::default() };
    let chip = FunccallChip::new();
    let trace: RowMajorMatrix<BabyBear> =
        in_baby_bear(&chip.generate_trace(&shard, &mut ExecutionRecord::default()).unwrap());
    println!("{:?}", trace.values);
    assert_eq!(trace.values, vec![BabyBear::ZERO, BabyBear::ZERO]);
    assert_eq!(trace.width(), 2);
    assert_eq!(trace.height(), 1);
}

#[test]
fn three_functions_called_zero_zero_two() {
    let shard = shard_of(vec![10, 20, 30], &[0, 0, 2], 7);
    let chip = FunccallChip::new();
    let preprocessed = chip.generate_preprocessed_trace(&shard.program).unwrap().unwrap();
    assert_eq!(preprocessed.width, 2);
    assert_eq!(preprocessed.height(), 4);
    assert_eq!(preprocessed.values, vec![0, 10, 1, 20, 2, 30, 0, 0]);
    assert_eq!(column(&preprocessed, 0), vec![0, 1, 2, 0]);
    let trace = chip.generate_trace(&shard, &mut ExecutionRecord::default()).unwrap();
    assert_eq!(trace.width, 2);
    assert_eq!(trace.height(), 4);
    assert_eq!(trace.values, vec![7, 2, 7, 0, 7, 1, 0, 0]);
    assert_eq!(column(&trace, 1), vec![2, 0, 1, 0]);
}

#[test]
fn trace_cells_are_canonical_in_baby_bear() {
    let shard = shard_of(vec![10, 20, 30], &[0, 0, 2], 7);
    let chip = FunccallChip::new();
    let trace = in_baby_bear(&chip.generate_trace(&shard, &mut ExecutionRecord::default()).unwrap());
    let cells: Vec<u32> = trace.values.iter().map(|cell| cell.as_canonical_u32()).collect();
    assert_eq!(cells, vec![7, 2, 7, 0, 7, 1, 0, 0]);
    assert_eq!(trace.values[1], BabyBear::from_u32(2));
}

#[test]
fn unknown_function_aborts_with_the_first_one() {
    let shard = shard_of(vec![10, 20, 30], &[0, 3, 5], 0);
    let chip = FunccallChip::new();
    let r = chip.generate_trace(&shard, &mut ExecutionRecord::default());
    assert_eq!(r.unwrap_err(), TraceError::UnknownFunction { func_index: 3 });
}

#[test]
fn call_into_an_empty_program_aborts() {
    let shard = shard_of(vec![], &[0], 0);
    let chip = FunccallChip::new();
    let r = chip.generate_trace(&shard, &mut ExecutionRecord::default());
    assert_eq!(r.unwrap_err(), TraceError::UnknownFunction { func_index: 0 });
}

#[test]
fn unknown_function_is_reported_before_the_shape() {
    let shard = shard_of(vec![10, 20, 30], &[9], 0);
    let chip = FunccallChip::new();
    let r = chip.generate_fixed_trace(&shard, &mut ExecutionRecord::default(), Some(1));
    assert_eq!(r.unwrap_err(), TraceError::UnknownFunction { func_index: 9 });
}

#[test]
fn fixed_shape_gives_exactly_two_to_the_k_rows() {
    let shard = shard_of(vec![10, 20, 30], &[1, 1, 1, 2], 5);
    let chip = FunccallChip::new();
    let trace = chip.generate_fixed_trace(&shard, &mut ExecutionRecord::default(), Some(3)).unwrap();
    assert_eq!(trace.height(), 8);
    assert_eq!(trace.values, vec![5, 0, 5, 3, 5, 1, 0, 0, 0, 0, 0, 0, 0, 0, 0, 0]);
    let exact = chip.generate_fixed_trace(&shard, &mut ExecutionRecord::default(), Some(2)).unwrap();
    assert_eq!(exact.height(), 4);
    assert_eq!(exact.values, vec![5, 0, 5, 3, 5, 1, 0, 0]);
}

#[test]
fn fixed_shape_of_one_row() {
    let shard = shard_of(vec![40], &[0, 0, 0], 2);
    let chip = FunccallChip::new();
    let trace = chip.generate_fixed_trace(&shard, &mut ExecutionRecord::default(), Some(0)).unwrap();
    assert_eq!(trace.values, vec![2, 3]);
}

#[test]
fn fixed_shape_below_min_rows_is_refused() {
    let shard = shard_of(vec![10, 20, 30], &[0, 0, 2], 7);
    let chip = FunccallChip::new();
    assert_eq!(chip.min_rows(&shard), 3);
    let r = chip.generate_fixed_trace(&shard, &mut ExecutionRecord::default(), Some(1));
    assert_eq!(r.unwrap_err(), TraceError::ShapeTooSmall { rows: 3 });
    let r = chip.generate_fixed_trace(&shard, &mut ExecutionRecord::default(), Some(0));
    assert_eq!(r.unwrap_err(), TraceError::ShapeTooSmall { rows: 3 });
}

#[test]
fn fixed_shape_beyond_the_machine_word_is_refused() {
    let shard = shard_of(vec![10, 20, 30], &[0, 0, 2], 7);
    let chip = FunccallChip::new();
    let bits = usize::BITS as usize;
    let r = chip.generate_fixed_trace(&shard, &mut ExecutionRecord::default(), Some(bits));
    assert_eq!(r.unwrap_err(), TraceError::TooLarge);
    let r = chip.generate_fixed_trace(&shard, &mut ExecutionRecord::default(), Some(usize::MAX));
    assert_eq!(r.unwrap_err(), TraceError::TooLarge);
}

#[test]
fn row_count_is_the_next_power_of_two() {
    let chip = FunccallChip::new();
    let expected: [(usize, usize); 8] =
        [(0, 1), (1, 1), (2, 2), (3, 4), (4, 4), (5, 8), (8, 8), (9, 16)];
    for (functions, rows) in expected {
        let offsets: Vec<u32> = (0..functions as u32).map(|i| 100 + i).collect();
        let shard = shard_of(offsets, &[], 1);
        let trace = chip.generate_trace(&shard, &mut ExecutionRecord::default()).unwrap();
        assert_eq!(trace.height(), rows);
        assert!(trace.height().is_power_of_two());
        let preprocessed = chip.generate_preprocessed_trace(&shard.program).unwrap().unwrap();
        assert_eq!(preprocessed.height(), rows);
    }
}

#[test]
fn every_row_has_the_declared_width() {
    let chip = FunccallChip::new();
    assert_eq!(chip.width(), 2);
    assert_eq!(chip.width(), NUM_FUNCCALL_MULT_COLS);
    assert_eq!(chip.preprocessed_width(), 2);
    assert_eq!(chip.preprocessed_width(), NUM_FUNCCALL_PREPROCESSED_COLS);
    let shard = shard_of(vec![10, 20, 30, 40, 50], &[4, 4, 1], 3);
    let trace = chip.generate_trace(&shard, &mut ExecutionRecord::default()).unwrap();
    assert_eq!(trace.width, chip.width());
    assert_eq!(trace.values.len(), 8 * chip.width());
    let preprocessed = chip.generate_preprocessed_trace(&shard.program).unwrap().unwrap();
    assert_eq!(preprocessed.width, chip.preprocessed_width());
    assert_eq!(preprocessed.values.len(), 8 * chip.preprocessed_width());
}

#[test]
fn multiplicities_add_up_to_the_number_of_calls() {
    let chip = FunccallChip::new();
    let events: [u32; 11] = [4, 0, 4, 1, 1, 4, 2, 0, 4, 4, 1];
    let shard = shard_of(vec![10, 20, 30, 40, 50], &events, 3);
    let trace = chip.generate_trace(&shard, &mut ExecutionRecord::default()).unwrap();
    let multiplicity = column(&trace, 1);
    assert_eq!(multiplicity, vec![2, 3, 1, 0, 5, 0, 0, 0]);
    assert_eq!(multiplicity.iter().sum::<u64>(), events.len() as u64);
    let fixed = chip.generate_fixed_trace(&shard, &mut ExecutionRecord::default(), Some(4)).unwrap();
    assert_eq!(column(&fixed, 1).iter().sum::<u64>(), events.len() as u64);
}

#[test]
fn padding_rows_hold_zeros_alone() {
    let chip = FunccallChip::new();
    let shard = shard_of(vec![10, 20, 30, 40, 50], &[4, 0, 4], 9);
    let trace = chip.generate_fixed_trace(&shard, &mut ExecutionRecord::default(), Some(4)).unwrap();
    assert_eq!(trace.height(), 16);
    assert_eq!(column(&trace, 0)[..5], [9, 9, 9, 9, 9]);
    assert!(trace.values[10..].iter().all(|cell| *cell == 0));
    let real: u64 = column(&trace, 1)[..5].iter().sum();
    let all: u64 = column(&trace, 1).iter().sum();
    assert_eq!(real, 3);
    assert_eq!(all, real);
    let preprocessed = chip.generate_preprocessed_trace(&shard.program).unwrap().unwrap();
    assert_eq!(preprocessed.values[..10], [0, 10, 1, 20, 2, 30, 3, 40, 4, 50]);
    assert!(preprocessed.values[10..].iter().all(|cell| *cell == 0));
}

#[test]
fn generation_is_deterministic() {
    let chip = FunccallChip::new();
    let shard = shard_of(vec![7, 7, 9, 11], &[3, 3, 0, 1, 3], 12);
    let first = chip.generate_trace(&shard, &mut ExecutionRecord::default()).unwrap();
    let second = chip.generate_trace(&shard, &mut ExecutionRecord::default()).unwrap();
    assert_eq!(first, second);
    let first = chip.generate_preprocessed_trace(&shard.program).unwrap().unwrap();
    let second = chip.generate_preprocessed_trace(&shard.program).unwrap().unwrap();
    assert_eq!(first, second);
    assert_eq!(first.values, vec![0, 7, 1, 7, 2, 9, 3, 11]);
}

#[test]
fn the_chip_is_included_in_every_shard() {
    let chip = FunccallChip::new();
    assert!(chip.included(&ExecutionRecord::default()));
    assert!(chip.included(&shard_of(vec![1, 2], &[], 0)));
    assert!(chip.included(&shard_of(vec![1, 2], &[1], 0)));
}

#[test]
fn min_rows_is_the_number_of_functions() {
    let chip = FunccallChip::new();
    assert_eq!(chip.min_rows(&ExecutionRecord::default()), 0);
    assert_eq!(chip.min_rows(&shard_of(vec![1, 2, 3, 4, 5], &[1], 0)), 5);
}

#[test]
fn the_output_record_is_left_alone() {
    let chip = FunccallChip::new();
    let shard = shard_of(vec![10, 20], &[1, 1], 4);
    let mut output = shard_of(vec![5], &[0], 8);
    chip.generate_trace(&shard, &mut output).unwrap();
    chip.generate_dependencies(&shard, &mut output);
    let failing = shard_of(vec![10, 20], &[2], 4);
    assert!(chip.generate_trace(&failing, &mut output).is_err());
    assert_eq!(output.function_call_events, calls(&[0]));
    assert_eq!(output.program.index_by_offset, vec![5]);
    assert_eq!(output.public_values, PublicValues { execution_shard: 8 });
}

#[test]
fn the_chip_is_named_funccall() {
    assert_eq!(FunccallChip::new().name(), "Funccall");
    assert_eq!(FunccallChip::default().name(), "Funccall".to_string());
}

#[test]
fn calls_are_counted_by_function() {
    let counts = count_function_calls(&calls(&[2, 0, 2, 2, 5]), 6).unwrap();
    assert_eq!(counts.len(), 3);
    assert_eq!(counts.get(&0), Some(&1));
    assert_eq!(counts.get(&2), Some(&3));
    assert_eq!(counts.get(&5), Some(&1));
    assert_eq!(counts.get(&1), None);
    assert!(count_function_calls(&calls(&[]), 0).unwrap().is_empty());
    assert_eq!(
        count_function_calls(&calls(&[2, 0, 7, 6]), 6).unwrap_err(),
        TraceError::UnknownFunction { func_index: 7 }
    );
    assert_eq!(
        count_function_calls(&calls(&[6]), 6).unwrap_err(),
        TraceError::UnknownFunction { func_index: 6 }
    );
}

#[test]
fn columns_and_rows_convert_both_ways() {
    let prep = FunccallPreprocessedCols { function: 3u64, index_by_function: 40u64 };
    assert_eq!(prep.to_row(), [3, 40]);
    let back = FunccallPreprocessedCols::from_row(&[3u64, 40u64]);
    assert_eq!((back.function, back.index_by_function), (3, 40));
    let mult = FunccallMultiplicityCols { shard: 9u64, multiplicity: 2u64 };
    assert_eq!(mult.to_row(), [9, 2]);
    let back = FunccallMultiplicityCols::from_row(&[9u64, 2u64]);
    assert_eq!((back.shard, back.multiplicity), (9, 2));
    let zero: FunccallMultiplicityCols<u64> = Default::default();
    assert_eq!(zero.to_row(), [0, 0]);
}

#[test]
fn each_row_claims_its_function_from_the_bus() {
    let chip = FunccallChip::new();
    let shard = shard_of(vec![10, 20, 30], &[0, 0, 2], 7);
    let preprocessed = chip.generate_preprocessed_trace(&shard.program).unwrap().unwrap();
    let trace = chip.generate_trace(&shard, &mut ExecutionRecord::default()).unwrap();
    let claims: Vec<(u64, u64, u64, u64)> = preprocessed
        .values
        .chunks(2)
        .zip(trace.values.chunks(2))
        .map(|(prep, main)| {
            let claim = chip.eval(prep, main);
            (claim.function, claim.index_by_function, claim.shard, claim.multiplicity)
        })
        .collect();
    assert_eq!(claims, vec![(0, 10, 7, 2), (1, 20, 7, 0), (2, 30, 7, 1), (0, 0, 0, 0)]);
    for function in 0..3u64 {
        let received: u64 =
            claims.iter().filter(|claim| claim.0 == function).map(|claim| claim.3).sum();
        let sent = shard
            .function_call_events
            .iter()
            .filter(|event| event.func_index as u64 == function)
            .count();
        assert_eq!(received, sent as u64);
    }
}

#[test]
fn a_claim_keeps_the_cells_it_is_given() {
    let chip = FunccallChip::new();
    let claim = chip.eval(&['f', 'o'], &['s', 'm']);
    assert_eq!(claim.function, 'f');
    assert_eq!(claim.index_by_function, 'o');
    assert_eq!(claim.shard, 's');
    assert_eq!(claim.multiplicity, 'm');
}

#[test]
fn the_start_address_becomes_a_cell() {
    let program = Program::new(vec![1, 2], 0x2000_0000, 4);
    let pc: u64 = program.pc_start();
    assert_eq!(pc, 0x2000_0000);
    assert_eq!(program.pc_base, 4);
    let default = Program::default();
    assert_eq!(MachineProgram::<u64>::pc_start(&default), 0);
    assert!(default.index_by_offset.is_empty());
}

#[test]
fn the_default_record_is_empty() {
    let record = ExecutionRecord::default();
    assert!(record.function_call_events.is_empty());
    assert!(record.program.index_by_offset.is_empty());
    assert_eq!(record.public_values.execution_shard, 0);
}
