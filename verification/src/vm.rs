//! The execution engine.

use vstd::prelude::*;
use vstd::string::StringExecFns;
use crate::machine::{
    arith, dispatch, dump, execute, jump, lines, record, run, scan, scan_stops, step, Machine,
    Outcome, STEP_LIMIT,
};
use crate::op::{Fault, FaultKind, Op, Step};
use crate::text::{render, write_indices, write_values};

verus! {

/// An engine: an operand stack, a memory, a jump table and the output that
/// `Put` has produced. All four live as long as the engine and are carried
/// from one execution to the next.
pub struct VM {
    stack: Vec<i64>,
    memory: Vec<i64>,
    jump_table: Vec<usize>,
    output: Vec<i64>,
}

impl View for VM {
    type V = Machine;

    closed spec fn view(&self) -> Machine {
        Machine {
            stack: self.stack@,
            memory: self.memory@,
            labels: self.jump_table@,
            output: self.output@,
        }
    }
}

impl VM {
    /// An engine with everything empty.
    pub fn new() -> (vm: VM)
        ensures
            vm@ == Machine::empty(),
    {
        VM { stack: Vec::new(), memory: Vec::new(), jump_table: Vec::new(), output: Vec::new() }
    }

    /// The operand stack, top last.
    pub fn stack(&self) -> (stack: &Vec<i64>)
        ensures
            stack@ == self@.stack,
    {
        &self.stack
    }

    /// The memory cells, by address.
    pub fn memory(&self) -> (memory: &Vec<i64>)
        ensures
            memory@ == self@.memory,
    {
        &self.memory
    }

    /// The jump table: for each label identifier the index of its
    /// instruction.
    pub fn jump_table(&self) -> (labels: &Vec<usize>)
        ensures
            labels@ == self@.labels,
    {
        &self.jump_table
    }

    /// The values that `Put` has emitted since the output was last taken,
    /// oldest first.
    pub fn output(&self) -> (output: &Vec<i64>)
        ensures
            output@ == self@.output,
    {
        &self.output
    }

    /// Hands out the values that `Put` has emitted and leaves the output
    /// empty.
    pub fn take_output(&mut self) -> (output: Vec<i64>)
        ensures
            output@ == old(self)@.output,
            final(self)@ == (Machine { output: Seq::empty(), ..old(self)@ }),
    {
        let mut output: Vec<i64> = Vec::new();
        std::mem::swap(&mut self.output, &mut output);
        output
    }

    /// Hands out the emitted values as the lines to write, one for each
    /// value and in the order of their emission, and leaves the output
    /// empty.
    pub fn take_lines(&mut self) -> (text: Vec<String>)
        ensures
            text@.len() == old(self)@.output.len(),
            forall|i: int| 0 <= i < text@.len() ==> (#[trigger] text@[i])@ == lines(
                old(self)@.output,
            )[i],
            final(self)@ == (Machine { output: Seq::empty(), ..old(self)@ }),
    {
        let output = self.take_output();
        let mut text: Vec<String> = Vec::new();
        let mut i: usize = 0;
        while i < output.len()
            invariant
                i <= output.len(),
                text@.len() == i,
                forall|j: int| 0 <= j < i ==> (#[trigger] text@[j])@ == lines(output@)[j],
            decreases output.len() - i,
        {
            text.push(render(output[i]));
            i += 1;
        }
        text
    }

    /// Describes the stack, the memory and the jump table, one line each.
    /// The engine stays as it is.
    pub fn dump(&self) -> (text: String)
        ensures
            text@ == dump(self@),
    {
        let mut text = String::new();
        text.append("stack ");
        write_values(&mut text, &self.stack);
        text.append("\n");
        text.append("memory ");
        write_values(&mut text, &self.memory);
        text.append("\n");
        text.append("jmp table ");
        write_indices(&mut text, &self.jump_table);
        text.append("\n");
        assert(text@ =~= dump(self@));
        text
    }

    /// Ends a run on a pop from an empty stack.
    fn underflow(&mut self) -> (s: Step)
        ensures
            (final(self)@, s) == old(self)@.underflow(),
    {
        self.stack.clear();
        Step::Halt(None)
    }

    /// Looks `label` up in the jump table.
    fn jump(&self, label: i64, pc: usize) -> (s: Step)
        ensures
            s == jump(self@.labels, label, pc),
    {
        if 0 <= label && (label as u64) < (self.jump_table.len() as u64) {
            Step::Continue(self.jump_table[label as usize])
        } else {
            Step::Fault(Fault { kind: FaultKind::UndefinedLabel, at: pc })
        }
    }

    /// Computes a binary arithmetic instruction on its two operands.
    fn arith(op: Op, a: i64, b: i64) -> (r: Result<i64, FaultKind>)
        requires
            op is Add || op is Sub || op is Mul || op is Div,
        ensures
            match r {
                Ok(v) => arith(op, a as int, b as int) == Ok::<int, FaultKind>(v as int),
                Err(kind) => arith(op, a as int, b as int) == Err::<int, FaultKind>(kind),
            },
    {
        if matches!(op, Op::Div) && b == 0 {
            return Err(FaultKind::DivisionByZero);
        }
        let exact = match op {
            Op::Add => a.checked_add(b),
            Op::Sub => a.checked_sub(b),
            Op::Mul => a.checked_mul(b),
            _ => a.checked_div(b),
        };
        match exact {
            Some(v) => Ok(v),
            None => Err(FaultKind::Overflow),
        }
    }

    /// Dispatches `op`, found at index `pc`.
    fn dispatch(&mut self, op: Op, pc: usize) -> (s: Step)
        requires
            pc < usize::MAX,
        ensures
            (final(self)@, s) == dispatch(old(self)@, op, pc),
    {
        let n: usize = self.stack.len();
        let next = Step::Continue(pc + 1);
        let s = match op {
            Op::Add | Op::Sub | Op::Mul | Op::Div => {
                if n < 2 {
                    return self.underflow();
                }
                let a = self.stack[n - 1];
                let b = self.stack[n - 2];
                self.stack.truncate(n - 2);
                match VM::arith(op, a, b) {
                    Ok(v) => {
                        self.stack.push(v);
                        next
                    },
                    Err(kind) => Step::Fault(Fault { kind, at: pc }),
                }
            },
            Op::Lit(x) => {
                self.stack.push(x);
                next
            },
            Op::Load => {
                if n < 1 {
                    return self.underflow();
                }
                let addr = self.stack[n - 1];
                self.stack.truncate(n - 1);
                if 0 <= addr && (addr as u64) < (self.memory.len() as u64) {
                    let cell = self.memory[addr as usize];
                    self.stack.push(cell);
                    next
                } else {
                    Step::Fault(Fault { kind: FaultKind::LoadOutOfBounds, at: pc })
                }
            },
            Op::Store => {
                if n < 2 {
                    return self.underflow();
                }
                let addr = self.stack[n - 1];
                let value = self.stack[n - 2];
                self.stack.truncate(n - 2);
                if 0 <= addr && (addr as u64) < (self.memory.len() as u64) {
                    self.memory.set(addr as usize, value);
                    next
                } else if 0 <= addr && (addr as u64) == (self.memory.len() as u64) {
                    self.memory.push(value);
                    next
                } else {
                    Step::Fault(Fault { kind: FaultKind::StoreOutOfBounds, at: pc })
                }
            },
            Op::Label(_) => next,
            Op::Jmp => {
                if n < 1 {
                    return self.underflow();
                }
                let label = self.stack[n - 1];
                self.stack.truncate(n - 1);
                self.jump(label, pc)
            },
            Op::CJmp => {
                if n < 2 {
                    return self.underflow();
                }
                let label = self.stack[n - 1];
                let flag = self.stack[n - 2];
                self.stack.truncate(n - 2);
                if flag != 0 {
                    self.jump(label, pc)
                } else {
                    next
                }
            },
            Op::Put => {
                if n < 1 {
                    return self.underflow();
                }
                let value = self.stack[n - 1];
                self.stack.truncate(n - 1);
                self.output.push(value);
                next
            },
            Op::Dup => {
                if n < 1 {
                    return self.underflow();
                }
                let value = self.stack[n - 1];
                self.stack.push(value);
                next
            },
            Op::Swap => {
                if n < 2 {
                    return self.underflow();
                }
                let a = self.stack[n - 1];
                let b = self.stack[n - 2];
                self.stack.set(n - 2, a);
                self.stack.set(n - 1, b);
                next
            },
            Op::Eq | Op::Lt | Op::Gt => {
                let a = self.stack.pop();
                let b = self.stack.pop();
                let holds = match (a, b) {
                    (Some(x), Some(y)) => if matches!(op, Op::Eq) {
                        x == y
                    } else {
                        x < y
                    },
                    (None, None) => matches!(op, Op::Eq),
                    _ => false,
                };
                self.stack.push(if holds { 1 } else { 0 });
                next
            },
        };
        proof {
            let expected = dispatch(old(self)@, op, pc).0;
            assert(self@.stack =~= expected.stack);
            assert(self@.memory =~= expected.memory);
            assert(self@.output =~= expected.output);
        }
        s
    }

    /// Runs one turn of the dispatch loop with the instruction pointer at
    /// `pc` and says how to go on.
    pub fn step(&mut self, program: &Vec<Op>, pc: usize) -> (s: Step)
        ensures
            (final(self)@, s) == step(old(self)@, program@, pc),
    {
        if pc < program.len() {
            self.dispatch(program[pc], pc)
        } else {
            Step::Halt(self.stack.pop())
        }
    }

    /// Records every label of `program` in the jump table, in program
    /// order, and stops at the first one that is out of order.
    pub fn index_labels(&mut self, program: &Vec<Op>) -> (r: Result<(), Fault>)
        ensures
            final(self)@ == (Machine {
                labels: scan(old(self)@.labels, program@, program@.len()).0,
                ..old(self)@
            }),
            r == match scan(old(self)@.labels, program@, program@.len()).1 {
                Some(fault) => Err::<(), Fault>(fault),
                None => Ok::<(), Fault>(()),
            },
    {
        let mut i: usize = 0;
        while i < program.len()
            invariant
                i <= program.len(),
                scan(old(self)@.labels, program@, i as nat) == (self.jump_table@, None::<Fault>),
                self.stack == old(self).stack,
                self.memory == old(self).memory,
                self.output == old(self).output,
            decreases program.len() - i,
        {
            if let Op::Label(id) = program[i] {
                let known: usize = self.jump_table.len();
                if id < known {
                    self.jump_table.set(id, i);
                } else if id == known {
                    self.jump_table.push(i);
                } else {
                    proof {
                        scan_stops(old(self)@.labels, program@, i as nat + 1, program@.len());
                    }
                    return Err(Fault { kind: FaultKind::SparseLabel, at: i });
                }
                assert(Some(self.jump_table@) =~= record(
                    scan(old(self)@.labels, program@, i as nat).0,
                    id,
                    i,
                ));
            }
            i += 1;
        }
        Ok(())
    }

    /// Runs the dispatch loop from `pc` on, for at most `fuel` turns.
    pub fn run(&mut self, program: &Vec<Op>, pc: usize, fuel: u64) -> (r: Outcome)
        ensures
            (final(self)@, r) == run(old(self)@, program@, pc, fuel as nat),
    {
        let mut at: usize = pc;
        let mut left: u64 = fuel;
        while left > 0
            invariant
                run(self@, program@, at, left as nat) == run(
                    old(self)@,
                    program@,
                    pc,
                    fuel as nat,
                ),
            decreases left,
        {
            match self.step(program, at) {
                Step::Continue(target) => {
                    at = target;
                },
                Step::Halt(value) => {
                    return Ok(value);
                },
                Step::Fault(fault) => {
                    return Err(fault);
                },
            }
            left -= 1;
        }
        Err(Fault { kind: FaultKind::StepLimit, at })
    }

    /// Executes `program`: records its labels, then runs it from its first
    /// instruction until it halts, faults, or has used `STEP_LIMIT` turns.
    /// What the engine held before the call is what the program starts
    /// with.
    pub fn excecute(&mut self, program: &Vec<Op>) -> (r: Outcome)
        ensures
            (final(self)@, r) == execute(old(self)@, program@),
    {
        match self.index_labels(program) {
            Err(fault) => Err(fault),
            Ok(()) => self.run(program, 0, STEP_LIMIT),
        }
    }
}

} // verus!
