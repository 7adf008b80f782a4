use vstd::prelude::*;

verus! {

/// Why a chip could not produce a trace. Generation is all-or-nothing: when an
/// error is returned no matrix exists.
#[derive(Clone, Copy, Debug, PartialEq, Eq, Structural)]
pub enum TraceError {
    /// An event names a key that the program's static table does not hold.
    UnknownFunction { func_index: u32 },
    /// The fixed shape offers fewer rows than the chip has to write.
    ShapeTooSmall { rows: usize },
    /// The padded matrix would hold more cells than a machine word can count.
    TooLarge,
}

} // verus!
