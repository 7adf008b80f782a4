use vstd::prelude::*;

verus! {

/// The number of bytes of a 32-bit value on the stack.
pub const I32_LEN: u32 = 4;

/// The WebAssembly opcode of `i32.add`, the wrapping 32-bit addition.
pub const I32ADD: u32 = 0x6a;

/// The 32 bits of `x` read as a signed number.
pub open spec fn signed_of(x: u32) -> i32 {
    if x < 0x8000_0000 {
        x as i32
    } else {
        (x - 0x1_0000_0000) as i32
    }
}

/// The 32 bits of `x` read as an unsigned number.
pub open spec fn unsigned_of(x: i32) -> u32 {
    if x >= 0 {
        x as u32
    } else {
        (x + 0x1_0000_0000) as u32
    }
}

/// The signed 32-bit number that differs from `v` by a multiple of `2^32`, for
/// a `v` that is the sum of two such numbers.
pub open spec fn wrapped_i32(v: int) -> i32 {
    if v > i32::MAX {
        (v - 0x1_0000_0000) as i32
    } else if v < i32::MIN {
        (v + 0x1_0000_0000) as i32
    } else {
        v as i32
    }
}

/// The two operands of a binary operation, as they were read from the stack
/// and as signed numbers.
pub struct OpcodeExecuteBuilder {
    pub x_val: u32,
    pub y_val: u32,
    pub signed_x: i32,
    pub signed_y: i32,
}

impl OpcodeExecuteBuilder {
    /// The signed fields hold the same bits as the values read.
    pub open spec fn wf(&self) -> bool {
        &&& self.signed_x == signed_of(self.x_val)
        &&& self.signed_y == signed_of(self.y_val)
    }

    pub fn new(x_val: u32, y_val: u32) -> (builder: Self)
        ensures
            builder.wf(),
            builder.x_val == x_val,
            builder.y_val == y_val,
    {
        OpcodeExecuteBuilder { x_val, y_val, signed_x: to_signed(x_val), signed_y: to_signed(y_val) }
    }
}

/// Reads the bits of `x` as a signed number.
pub fn to_signed(x: u32) -> (r: i32)
    ensures
        r == signed_of(x),
{
    if x < 0x8000_0000 {
        x as i32
    } else {
        (x as i64 - 0x1_0000_0000) as i32
    }
}

/// Reads the bits of `x` as an unsigned number.
pub fn to_unsigned(x: i32) -> (r: u32)
    ensures
        r == unsigned_of(x),
{
    if x >= 0 {
        x as u32
    } else {
        (x as i64 + 0x1_0000_0000) as u32
    }
}

/// What the operation with the opcode `OPCODE` computes from its operands.
pub trait OpcodeExecute<const OPCODE: u32> {
    fn opcode_specific(&mut self) -> i32;
}

impl OpcodeExecute<I32ADD> for OpcodeExecuteBuilder {
    fn opcode_specific(&mut self) -> (res: i32)
        ensures
            *final(self) == *old(self),
            res == wrapped_i32(old(self).signed_x + old(self).signed_y),
            old(self).wf() ==> unsigned_of(res) == (old(self).x_val + old(self).y_val)
                % 0x1_0000_0000,
    {
        self.signed_x.wrapping_add(self.signed_y)
    }
}

/// What one binary operation on 32-bit values does to the machine.
#[derive(Clone, Copy, Debug, PartialEq, Eq, Structural)]
pub struct BinOp32Step {
    /// The clock after the operation.
    pub clk: u32,
    /// The stack pointer after the operation: it is written back to the
    /// address it was read from, and the result is written to where it points.
    pub post_stack_ptr_val: u32,
    /// The result of the operation.
    pub res_val: u32,
}

/// The chip of the binary operations on 32-bit values.
pub struct BinOp32Chip;

impl BinOp32Chip {
    pub fn new() -> Self {
        BinOp32Chip {  }
    }

    pub fn num_extra_cycles(&self) -> (cycles: u32)
        ensures
            cycles == 1,
    {
        1
    }

    /// Adds the two operands `x_val` and `y_val` that were read from the stack,
    /// modulo `2^32`, takes one cycle and moves the stack pointer down by one
    /// value.
    pub fn execute(&self, clk: u32, stack_ptr_val: u32, x_val: u32, y_val: u32) -> (step:
        BinOp32Step)
        requires
            clk < u32::MAX,
            stack_ptr_val >= I32_LEN,
        ensures
            step.clk == clk + 1,
            step.post_stack_ptr_val == stack_ptr_val - I32_LEN,
            step.res_val == (x_val + y_val) % 0x1_0000_0000,
    {
        let mut builder = OpcodeExecuteBuilder::new(x_val, y_val);
        let res: i32 = <OpcodeExecuteBuilder as OpcodeExecute<I32ADD>>::opcode_specific(&mut builder);
        BinOp32Step {
            clk: clk + 1,
            post_stack_ptr_val: stack_ptr_val - I32_LEN,
            res_val: to_unsigned(res),
        }
    }
}

} // verus!
