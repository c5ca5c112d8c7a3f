//! The mathematical model of the engine: its state as sequences, one
//! dispatch as a function from state to state, a run as its iteration.

use vstd::prelude::*;
use crate::op::{Fault, FaultKind, Op, Step};
use crate::text::{decimal, listing};

verus! {

/// The state of an engine.
pub struct Machine {
    /// The operand stack, top last.
    pub stack: Seq<i64>,
    /// The memory cells, by address.
    pub memory: Seq<i64>,
    /// The jump table: for each label identifier the index of its instruction.
    pub labels: Seq<usize>,
    /// The values emitted by `Put` and not yet taken, oldest first.
    pub output: Seq<i64>,
}

/// The outcome of a run: the value it produced, if any, or the fault that
/// aborted it.
pub type Outcome = Result<Option<i64>, Fault>;

/// The largest number of dispatches one call of `VM::excecute` makes.
pub const STEP_LIMIT: u64 = 0xffff_ffff_ffff_ffff;

impl Machine {
    /// The state of a new engine.
    pub open spec fn empty() -> Machine {
        Machine {
            stack: Seq::empty(),
            memory: Seq::empty(),
            labels: Seq::empty(),
            output: Seq::empty(),
        }
    }

    pub open spec fn with_stack(self, stack: Seq<i64>) -> Machine {
        Machine { stack, ..self }
    }

    /// The end of a run on a pop from an empty stack: whatever the
    /// instruction had popped before is gone, so the stack is left empty.
    pub open spec fn underflow(self) -> (Machine, Step) {
        (self.with_stack(Seq::empty()), Step::Halt(None))
    }
}

/// The three lines that describe the state of an engine: its stack, its
/// memory and its jump table.
pub open spec fn dump(m: Machine) -> Seq<char> {
    "stack "@ + listing(m.stack.map_values(|v: i64| v as int)) + "\n"@ + "memory "@ + listing(
        m.memory.map_values(|v: i64| v as int),
    ) + "\n"@ + "jmp table "@ + listing(m.labels.map_values(|v: usize| v as int)) + "\n"@
}

/// The lines that an output is written as: for each value its decimal
/// form.
pub open spec fn lines(output: Seq<i64>) -> Seq<Seq<char>> {
    Seq::new(output.len(), |i: int| decimal(output[i] as int))
}

/// The top of a stack, if it has one.
pub open spec fn top(stack: Seq<i64>) -> Option<i64> {
    if stack.len() > 0 {
        Some(stack.last())
    } else {
        None
    }
}

/// A stack after one pop; an empty stack stays empty.
pub open spec fn pop(stack: Seq<i64>) -> Seq<i64> {
    if stack.len() > 0 {
        stack.drop_last()
    } else {
        stack
    }
}

/// The quotient of `a` by `b` rounded towards zero.
pub open spec fn quotient(a: int, b: int) -> int
    recommends
        b != 0,
{
    let q = (if a < 0 { -a } else { a }) / (if b < 0 { -b } else { b });
    if (a < 0) == (b < 0) {
        q
    } else {
        -q
    }
}

/// The exact result of a binary arithmetic instruction with left operand
/// `a` and right operand `b`, or the fault that it raises.
pub open spec fn arith(op: Op, a: int, b: int) -> Result<int, FaultKind>
    recommends
        op is Add || op is Sub || op is Mul || op is Div,
{
    let exact = match op {
        Op::Add => a + b,
        Op::Sub => a - b,
        Op::Mul => a * b,
        _ => quotient(a, b),
    };
    if op is Div && b == 0 {
        Err(FaultKind::DivisionByZero)
    } else if exact < i64::MIN || exact > i64::MAX {
        Err(FaultKind::Overflow)
    } else {
        Ok(exact)
    }
}

/// The flag that a comparison pushes. `a` is what the first pop gave and
/// `b` what the second gave; a pop from an empty stack gives `None`, which
/// equals only `None` and is less than every value.
pub open spec fn compare(op: Op, a: Option<i64>, b: Option<i64>) -> i64
    recommends
        op is Eq || op is Lt || op is Gt,
{
    let holds = if op is Eq {
        a == b
    } else {
        match (a, b) {
            (Some(x), Some(y)) => x < y,
            (None, Some(_)) => true,
            _ => false,
        }
    };
    if holds {
        1
    } else {
        0
    }
}

/// Where a jump to `label` leads: the recorded index, or a fault at `pc`.
pub open spec fn jump(labels: Seq<usize>, label: i64, pc: usize) -> Step {
    if 0 <= label < labels.len() {
        Step::Continue(labels[label as int])
    } else {
        Step::Fault(Fault { kind: FaultKind::UndefinedLabel, at: pc })
    }
}

/// Memory after writing `value` at `addr`: a cell in range is overwritten,
/// the address one past the end appends a cell, any other is refused.
pub open spec fn store(memory: Seq<i64>, addr: i64, value: i64) -> Option<Seq<i64>> {
    if 0 <= addr < memory.len() {
        Some(memory.update(addr as int, value))
    } else if addr == memory.len() {
        Some(memory.push(value))
    } else {
        None
    }
}

/// The effect of dispatching `op`, found at index `pc`.
pub open spec fn dispatch(m: Machine, op: Op, pc: usize) -> (Machine, Step) {
    let n = m.stack.len() as int;
    let next = Step::Continue((pc + 1) as usize);
    match op {
        Op::Add | Op::Sub | Op::Mul | Op::Div => {
            if n < 2 {
                m.underflow()
            } else {
                let rest = m.stack.take(n - 2);
                match arith(op, m.stack[n - 1] as int, m.stack[n - 2] as int) {
                    Ok(v) => (m.with_stack(rest.push(v as i64)), next),
                    Err(kind) => (m.with_stack(rest), Step::Fault(Fault { kind, at: pc })),
                }
            }
        },
        Op::Lit(x) => (m.with_stack(m.stack.push(x)), next),
        Op::Load => {
            if n < 1 {
                m.underflow()
            } else {
                let addr = m.stack[n - 1];
                let rest = m.stack.take(n - 1);
                if 0 <= addr < m.memory.len() {
                    (m.with_stack(rest.push(m.memory[addr as int])), next)
                } else {
                    (
                        m.with_stack(rest),
                        Step::Fault(Fault { kind: FaultKind::LoadOutOfBounds, at: pc }),
                    )
                }
            }
        },
        Op::Store => {
            if n < 2 {
                m.underflow()
            } else {
                let rest = m.stack.take(n - 2);
                match store(m.memory, m.stack[n - 1], m.stack[n - 2]) {
                    Some(memory) => (Machine { stack: rest, memory, ..m }, next),
                    None => (
                        m.with_stack(rest),
                        Step::Fault(Fault { kind: FaultKind::StoreOutOfBounds, at: pc }),
                    ),
                }
            }
        },
        Op::Label(_) => (m, next),
        Op::Jmp => {
            if n < 1 {
                m.underflow()
            } else {
                (m.with_stack(m.stack.take(n - 1)), jump(m.labels, m.stack[n - 1], pc))
            }
        },
        Op::CJmp => {
            if n < 2 {
                m.underflow()
            } else {
                (
                    m.with_stack(m.stack.take(n - 2)),
                    if m.stack[n - 2] != 0 {
                        jump(m.labels, m.stack[n - 1], pc)
                    } else {
                        next
                    },
                )
            }
        },
        Op::Put => {
            if n < 1 {
                m.underflow()
            } else {
                (
                    Machine {
                        stack: m.stack.take(n - 1),
                        output: m.output.push(m.stack[n - 1]),
                        ..m
                    },
                    next,
                )
            }
        },
        Op::Dup => {
            if n < 1 {
                m.underflow()
            } else {
                (m.with_stack(m.stack.push(m.stack[n - 1])), next)
            }
        },
        Op::Swap => {
            if n < 2 {
                m.underflow()
            } else {
                (
                    m.with_stack(m.stack.take(n - 2).push(m.stack[n - 1]).push(m.stack[n - 2])),
                    next,
                )
            }
        },
        Op::Eq | Op::Lt | Op::Gt => {
            let a = top(m.stack);
            let b = top(pop(m.stack));
            (m.with_stack(pop(pop(m.stack)).push(compare(op, a, b))), next)
        },
    }
}

/// One turn of the dispatch loop with the instruction pointer at `pc`.
/// Past the end of the program the run halts and hands out the top of the
/// stack, which it pops.
pub open spec fn step(m: Machine, program: Seq<Op>, pc: usize) -> (Machine, Step) {
    if pc < program.len() {
        dispatch(m, program[pc as int], pc)
    } else {
        (m.with_stack(pop(m.stack)), Step::Halt(top(m.stack)))
    }
}

/// The dispatch loop from `pc` on, cut off after `fuel` turns.
pub open spec fn run(m: Machine, program: Seq<Op>, pc: usize, fuel: nat) -> (Machine, Outcome)
    decreases fuel,
{
    if fuel == 0 {
        (m, Err(Fault { kind: FaultKind::StepLimit, at: pc }))
    } else {
        let (after, s) = step(m, program, pc);
        match s {
            Step::Continue(target) => run(after, program, target, (fuel - 1) as nat),
            Step::Halt(value) => (after, Ok(value)),
            Step::Fault(fault) => (after, Err(fault)),
        }
    }
}

/// The jump table after the label `id` was met at index `at`, or `None` if
/// the identifier is out of order.
pub open spec fn record(labels: Seq<usize>, id: usize, at: usize) -> Option<Seq<usize>> {
    if id < labels.len() {
        Some(labels.update(id as int, at))
    } else if id == labels.len() {
        Some(labels.push(at))
    } else {
        None
    }
}

/// The jump table after the first `n` instructions of `program` were
/// scanned, starting from `labels`, and the fault that stopped the scan, if
/// one did. After a fault the table is the one that the offending label
/// found.
pub open spec fn scan(labels: Seq<usize>, program: Seq<Op>, n: nat) -> (Seq<usize>, Option<Fault>)
    decreases n,
{
    if n == 0 {
        (labels, None)
    } else {
        let (table, fault) = scan(labels, program, (n - 1) as nat);
        match (fault, program[n - 1]) {
            (None, Op::Label(id)) => match record(table, id, (n - 1) as usize) {
                Some(updated) => (updated, None),
                None => (
                    table,
                    Some(Fault { kind: FaultKind::SparseLabel, at: (n - 1) as usize }),
                ),
            },
            _ => (table, fault),
        }
    }
}

/// Once a label was refused, scanning further changes nothing.
pub proof fn scan_stops(labels: Seq<usize>, program: Seq<Op>, k: nat, n: nat)
    requires
        k <= n,
        scan(labels, program, k).1 is Some,
    ensures
        scan(labels, program, n) == scan(labels, program, k),
    decreases n,
{
    if k < n {
        scan_stops(labels, program, k, (n - 1) as nat);
    }
}

/// A whole execution: the labels of `program` are recorded, and if that
/// succeeds the dispatch loop runs from the first instruction.
pub open spec fn execute(m: Machine, program: Seq<Op>) -> (Machine, Outcome) {
    let (labels, fault) = scan(m.labels, program, program.len());
    let indexed = Machine { labels, ..m };
    match fault {
        Some(f) => (indexed, Err(f)),
        None => run(indexed, program, 0, STEP_LIMIT as nat),
    }
}

} // verus!
