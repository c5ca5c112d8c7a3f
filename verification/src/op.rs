//! The instruction set and the ways a run can end.

use vstd::prelude::*;

verus! {

/// One instruction of the machine.
///
/// Binary instructions pop their left operand first: with `a` on top of the
/// stack and `b` below it they compute `a (op) b`.
#[derive(Clone, Copy, Debug, PartialEq, Eq, Structural)]
pub enum Op {
    /// Pop two values, push their sum.
    Add,
    /// Pop two values, push their difference.
    Sub,
    /// Pop two values, push their product.
    Mul,
    /// Pop two values, push their quotient, rounded towards zero.
    Div,
    /// Push a literal.
    Lit(i64),
    /// Pop an address, push the memory cell it names.
    Load,
    /// Pop an address, then a value, and write the value to that cell.
    Store,
    /// Mark a jump target. Has no effect when dispatched.
    Label(usize),
    /// Pop a label and continue there.
    Jmp,
    /// Pop a label, then a condition, and continue at the label if the
    /// condition is not zero.
    CJmp,
    /// Pop a value and append it to the output.
    Put,
    /// Push a second copy of the top value.
    Dup,
    /// Pop two values and push them back, the first popped first.
    Swap,
    /// Pop two values, push 1 if they are equal and 0 otherwise.
    Eq,
    /// Pop two values, push 1 if the first popped is less than the second
    /// and 0 otherwise.
    Lt,
    /// Same comparison as `Lt`.
    Gt,
}

/// Why a run was aborted.
#[derive(Clone, Copy, Debug, PartialEq, Eq, Structural)]
pub enum FaultKind {
    /// `Div` with a zero divisor.
    DivisionByZero,
    /// An arithmetic result that does not fit in 64 bits.
    Overflow,
    /// `Load` from an address that is negative or not below the memory length.
    LoadOutOfBounds,
    /// `Store` to an address that is negative or above the memory length.
    StoreOutOfBounds,
    /// A jump to a label that is negative or not in the jump table.
    UndefinedLabel,
    /// A `Label` whose identifier is larger than the number of labels
    /// recorded so far.
    SparseLabel,
    /// The dispatch budget ran out before the program halted.
    StepLimit,
}

/// An aborted run: what went wrong, and the index of the instruction at
/// which it did.
#[derive(Clone, Copy, Debug, PartialEq, Eq, Structural)]
pub struct Fault {
    pub kind: FaultKind,
    pub at: usize,
}

/// What dispatching one instruction leads to.
#[derive(Clone, Copy, Debug, PartialEq, Eq)]
pub enum Step {
    /// Go on with the instruction at this index.
    Continue(usize),
    /// The run is over. `None` means that it produced no value: the stack
    /// was empty at the end of the program, or an instruction found too few
    /// operands.
    Halt(Option<i64>),
    /// The run is aborted.
    Fault(Fault),
}

} // verus!
