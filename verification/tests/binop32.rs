use rwasm_machine::binop32::{
    to_signed, to_unsigned, BinOp32Chip, BinOp32Step, OpcodeExecute, OpcodeExecuteBuilder, I32ADD,
    I32_LEN,
};

#[test]
fn bits_read_as_signed_and_back() {
    assert_eq!(to_signed(0), 0);
    assert_eq!(to_signed(0x7fff_ffff), i32::MAX);
    assert_eq!(to_signed(0x8000_0000), i32::MIN);
    assert_eq!(to_signed(0xffff_ffff), -1);
    assert_eq!(to_unsigned(0), 0);
    assert_eq!(to_unsigned(-1), 0xffff_ffff);
    assert_eq!(to_unsigned(i32::MIN), 0x8000_0000);
    assert_eq!(to_unsigned(i32::MAX), 0x7fff_ffff);
    for x in [0u32, 1, 0x11, 0x7fff_ffff, 0x8000_0000, 0x8000_0001, 0xffff_fffe, 0xffff_ffff] {
        assert_eq!(to_signed(x), x as i32);
        assert_eq!(to_unsigned(to_signed(x)), x);
    }
}

#[test]
fn the_builder_holds_both_readings() {
    let builder = OpcodeExecuteBuilder::new(0x11, 0xffff_fff0);
    assert_eq!(builder.x_val, 0x11);
    assert_eq!(builder.y_val, 0xffff_fff0);
    assert_eq!(builder.signed_x, 17);
    assert_eq!(builder.signed_y, -16);
}

#[test]
fn addition_wraps() {
    let mut builder = OpcodeExecuteBuilder::new(0x11, 0x23);
    assert_eq!(<OpcodeExecuteBuilder as OpcodeExecute<I32ADD>>::opcode_specific(&mut builder), 0x34);
    assert_eq!(builder.x_val, 0x11);
    assert_eq!(builder.y_val, 0x23);
    let mut builder = OpcodeExecuteBuilder::new(0x7fff_ffff, 1);
    assert_eq!(
        <OpcodeExecuteBuilder as OpcodeExecute<I32ADD>>::opcode_specific(&mut builder),
        i32::MIN
    );
    let mut builder = OpcodeExecuteBuilder::new(0xffff_ffff, 1);
    assert_eq!(<OpcodeExecuteBuilder as OpcodeExecute<I32ADD>>::opcode_specific(&mut builder), 0);
}

#[test]
fn one_operation_takes_one_cycle() {
    assert_eq!(BinOp32Chip::new().num_extra_cycles(), 1);
    assert_eq!(I32_LEN, 4);
}

#[test]
fn execute_adds_and_moves_the_stack_pointer() {
    let chip = BinOp32Chip::new();
    assert_eq!(
        chip.execute(0, 0x1000, 0x11, 0x23),
        BinOp32Step { clk: 1, post_stack_ptr_val: 0x0ffc, res_val: 0x34 }
    );
    assert_eq!(
        chip.execute(41, 4, 0xffff_ffff, 2),
        BinOp32Step { clk: 42, post_stack_ptr_val: 0, res_val: 1 }
    );
    assert_eq!(
        chip.execute(u32::MAX - 1, u32::MAX, 0x8000_0000, 0x8000_0000),
        BinOp32Step { clk: u32::MAX, post_stack_ptr_val: u32::MAX - 4, res_val: 0 }
    );
}
