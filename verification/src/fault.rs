//! The conditions under which the machine refuses to do what it was asked.

use vstd::prelude::*;

verus! {

/// Why an operation was refused.
#[derive(Debug, Clone, Copy, PartialEq, Eq, Structural)]
pub enum Fault {
    /// An address lies outside the range the operation may touch.
    OutOfBounds,
    /// A call was made with the call stack already full.
    StackOverflow,
    /// A return was made with the call stack empty.
    StackUnderflow,
    /// The word decodes, but the engine defines no behaviour for it.
    UnimplementedOpcode,
}

} // verus!
