//! General facts about the engine, proved from the model.

use vstd::prelude::*;
use crate::grammar::{compile, sum_compiles};
use crate::machine::{
    dispatch, execute, lines, pop, run, scan, scan_stops, step, top, Machine,
};
use crate::op::{Fault, FaultKind, Op, Step};
use crate::text::decimal;

verus! {

/// A program without labels leaves the jump table alone and records no
/// fault.
pub proof fn scan_without_labels(labels: Seq<usize>, program: Seq<Op>, n: nat)
    requires
        n <= program.len(),
        forall|i: int| 0 <= i < n ==> !(#[trigger] program[i] is Label),
    ensures
        scan(labels, program, n) == (labels, None::<Fault>),
    decreases n,
{
    if n > 0 {
        scan_without_labels(labels, program, (n - 1) as nat);
    }
}

/// The number of `Label` instructions among the first `n` of `program`.
pub open spec fn labels_before(program: Seq<Op>, n: nat) -> nat
    decreases n,
{
    if n == 0 {
        0
    } else {
        labels_before(program, (n - 1) as nat) + if program[n - 1] is Label {
            1nat
        } else {
            0nat
        }
    }
}

/// Each label met adds at most one entry to the jump table.
pub proof fn scan_grows_by_labels(labels: Seq<usize>, program: Seq<Op>, n: nat)
    ensures
        scan(labels, program, n).0.len() <= labels.len() + labels_before(program, n),
    decreases n,
{
    if n > 0 {
        scan_grows_by_labels(labels, program, (n - 1) as nat);
    }
}

/// A label whose identifier is larger than the number of entries the jump
/// table can have when the scan reaches it aborts the execution: the
/// identifier exceeds the entries the table started with plus the labels
/// met before. The fault is reported at that label or at an earlier one
/// that was out of order itself, and nothing is dispatched.
pub proof fn label_out_of_order_is_fatal(m: Machine, program: Seq<Op>, i: int, id: usize)
    requires
        0 <= i < program.len(),
        program.len() <= usize::MAX,
        program[i] == Op::Label(id),
        id > m.labels.len() + labels_before(program, i as nat),
    ensures
        execute(m, program).1 matches Err(fault) && fault.kind == FaultKind::SparseLabel
            && fault.at <= i,
        execute(m, program).0.stack == m.stack,
        execute(m, program).0.memory == m.memory,
        execute(m, program).0.output == m.output,
{
    scan_grows_by_labels(m.labels, program, i as nat);
    first_fault_is_early(m.labels, program, i as nat);
    assert(scan(m.labels, program, (i + 1) as nat).1 is Some);
    scan_stops(m.labels, program, (i + 1) as nat, program.len());
}

/// A fault found within the first `n` instructions lies at one of them and
/// is a label out of order.
pub proof fn first_fault_is_early(labels: Seq<usize>, program: Seq<Op>, n: nat)
    requires
        n <= usize::MAX,
    ensures
        scan(labels, program, n).1 matches Some(fault) ==> fault.kind == FaultKind::SparseLabel
            && fault.at < n,
    decreases n,
{
    if n > 0 {
        first_fault_is_early(labels, program, (n - 1) as nat);
    }
}

/// With more fuel a run that ended by itself ends the same way.
pub proof fn run_with_more_fuel(m: Machine, program: Seq<Op>, pc: usize, fuel: nat, more: nat)
    requires
        fuel <= more,
        !(run(m, program, pc, fuel).1 matches Err(fault) && fault.kind == FaultKind::StepLimit),
    ensures
        run(m, program, pc, more) == run(m, program, pc, fuel),
    decreases fuel,
{
    if fuel > 0 {
        let (after, s) = step(m, program, pc);
        if let Step::Continue(target) = s {
            run_with_more_fuel(after, program, target, (fuel - 1) as nat, (more - 1) as nat);
        }
    }
}

/// Executing `Lit(a), Lit(b), Add` yields `a + b` and leaves the engine as
/// it was, whenever the sum fits in 64 bits; when it does not, the run
/// aborts at the `Add`.
pub proof fn add_of_two_literals(m: Machine, a: i64, b: i64)
    ensures
        i64::MIN <= a + b <= i64::MAX ==> execute(m, seq![Op::Lit(a), Op::Lit(b), Op::Add]) == (
            m,
            Ok::<Option<i64>, Fault>(Some((a + b) as i64)),
        ),
        !(i64::MIN <= a + b <= i64::MAX) ==> execute(
            m,
            seq![Op::Lit(a), Op::Lit(b), Op::Add],
        ).1 == Err::<Option<i64>, Fault>(Fault { kind: FaultKind::Overflow, at: 2 }),
{
    let program = seq![Op::Lit(a), Op::Lit(b), Op::Add];
    scan_without_labels(m.labels, program, 3);
    reveal_with_fuel(run, 5);
    let m1 = m.with_stack(m.stack.push(a));
    let m2 = m1.with_stack(m1.stack.push(b));
    assert(step(m, program, 0) == (m1, Step::Continue(1)));
    assert(step(m1, program, 1) == (m2, Step::Continue(2)));
    assert(m2.stack.take(m2.stack.len() - 2) =~= m.stack);
    if i64::MIN <= a + b <= i64::MAX {
        let m3 = m.with_stack(m.stack.push((a + b) as i64));
        assert(step(m2, program, 2) == (m3, Step::Continue(3)));
        assert(pop(m3.stack) =~= m.stack);
        assert(step(m3, program, 3) == (m, Step::Halt(Some((a + b) as i64))));
    }
}

/// Compiling the decimal forms of `a` and `b` followed by `+`, and
/// executing what comes out, yields `a + b` whenever the sum fits in 64
/// bits, on every engine, and leaves the engine as it was.
pub proof fn compiled_sum_yields_the_sum(m: Machine, a: i64, b: i64)
    requires
        i64::MIN <= a + b <= i64::MAX,
    ensures
        compile(decimal(a as int) + " "@ + decimal(b as int) + " +"@) matches Ok(program)
            && execute(m, program) == (m, Ok::<Option<i64>, Fault>(Some((a + b) as i64))),
{
    sum_compiles(a, b);
    add_of_two_literals(m, a, b);
}

/// After a `Dup` the two top cells are equal, so a `Swap` that follows it
/// changes nothing and only moves the instruction pointer on.
pub proof fn swap_after_dup_changes_nothing(m: Machine, pc: usize, then: usize)
    requires
        m.stack.len() > 0,
    ensures
        dispatch(m, Op::Dup, pc) == (
            m.with_stack(m.stack.push(m.stack.last())),
            Step::Continue((pc + 1) as usize),
        ),
        dispatch(dispatch(m, Op::Dup, pc).0, Op::Swap, then) == (
            dispatch(m, Op::Dup, pc).0,
            Step::Continue((then + 1) as usize),
        ),
{
    let dup = dispatch(m, Op::Dup, pc).0;
    let swapped = dispatch(dup, Op::Swap, then).0;
    assert(swapped.stack =~= dup.stack);
}

/// The program `Dup, Swap` does to every engine what `Dup` alone does.
pub proof fn dup_swap_runs_like_dup(m: Machine)
    ensures
        execute(m, seq![Op::Dup, Op::Swap]) == execute(m, seq![Op::Dup]),
{
    let long = seq![Op::Dup, Op::Swap];
    let short = seq![Op::Dup];
    scan_without_labels(m.labels, long, 2);
    scan_without_labels(m.labels, short, 1);
    reveal_with_fuel(run, 4);
    if m.stack.len() > 0 {
        swap_after_dup_changes_nothing(m, 0, 1);
        let dup = dispatch(m, Op::Dup, 0).0;
        assert(step(m, long, 0) == (dup, Step::Continue(1)));
        assert(step(dup, long, 1) == (dup, Step::Continue(2)));
        assert(step(dup, long, 2) == step(dup, short, 1));
    }
}

/// Executing `Lit(v), Put` appends exactly `v` to the output. The run then
/// ends as on an empty program: it hands out the top of the stack it
/// started with. So a new engine yields no value, keeps an empty stack,
/// and its output is the one line that holds the decimal form of `v`.
pub proof fn put_of_a_literal(m: Machine, v: i64)
    ensures
        execute(m, seq![Op::Lit(v), Op::Put]) == (
            Machine { stack: pop(m.stack), output: m.output.push(v), ..m },
            Ok::<Option<i64>, Fault>(top(m.stack)),
        ),
        execute(Machine::empty(), seq![Op::Lit(v), Op::Put]) == (
            Machine { output: seq![v], ..Machine::empty() },
            Ok::<Option<i64>, Fault>(None),
        ),
        lines(seq![v]) == seq![decimal(v as int)],
{
    put_of_a_literal_on(m, v);
    put_of_a_literal_on(Machine::empty(), v);
    assert(Seq::<i64>::empty().push(v) =~= seq![v]);
    assert(lines(seq![v]) =~= seq![decimal(v as int)]);
}

proof fn put_of_a_literal_on(m: Machine, v: i64)
    ensures
        execute(m, seq![Op::Lit(v), Op::Put]) == (
            Machine { stack: pop(m.stack), output: m.output.push(v), ..m },
            Ok::<Option<i64>, Fault>(top(m.stack)),
        ),
{
    let program = seq![Op::Lit(v), Op::Put];
    scan_without_labels(m.labels, program, 2);
    reveal_with_fuel(run, 4);
    let m1 = m.with_stack(m.stack.push(v));
    let m2 = Machine { output: m.output.push(v), ..m };
    assert(step(m, program, 0) == (m1, Step::Continue(1)));
    assert(m1.stack.take(m1.stack.len() - 1) =~= m.stack);
    assert(step(m1, program, 1) == (m2, Step::Continue(2)));
}

/// A `Load` whose address is not below the memory length, or is negative,
/// aborts the run; one whose address is in range pushes that cell.
pub proof fn load_checks_the_address(m: Machine, pc: usize)
    requires
        m.stack.len() > 0,
    ensures
        ({
            let addr = m.stack.last();
            let rest = m.stack.drop_last();
            if 0 <= addr < m.memory.len() {
                dispatch(m, Op::Load, pc) == (
                    m.with_stack(rest.push(m.memory[addr as int])),
                    Step::Continue((pc + 1) as usize),
                )
            } else {
                dispatch(m, Op::Load, pc) == (
                    m.with_stack(rest),
                    Step::Fault(Fault { kind: FaultKind::LoadOutOfBounds, at: pc }),
                )
            }
        }),
{
    assert(m.stack.take(m.stack.len() - 1) =~= m.stack.drop_last());
}

/// A `Store` overwrites a cell in range, appends a cell when the address
/// is the memory length, and aborts the run on any other address. In the
/// first two cases every other cell stays as it was.
pub proof fn store_checks_the_address(m: Machine, pc: usize)
    requires
        m.stack.len() >= 2,
    ensures
        ({
            let addr = m.stack[m.stack.len() - 1];
            let value = m.stack[m.stack.len() - 2];
            let (after, s) = dispatch(m, Op::Store, pc);
            &&& after.stack == m.stack.take(m.stack.len() - 2)
            &&& after.labels == m.labels
            &&& after.output == m.output
            &&& 0 <= addr < m.memory.len() ==> s == Step::Continue((pc + 1) as usize)
                && after.memory == m.memory.update(addr as int, value)
            &&& addr == m.memory.len() ==> s == Step::Continue((pc + 1) as usize)
                && after.memory == m.memory.push(value)
            &&& (addr < 0 || addr > m.memory.len()) ==> s == Step::Fault(
                Fault { kind: FaultKind::StoreOutOfBounds, at: pc },
            ) && after.memory == m.memory
        }),
{
}

/// A comparison never ends the run. It takes up to two cells off the stack
/// and puts exactly one back, which is 0 or 1. With two operands the flag
/// says whether the relation holds between the upper and the lower one:
/// equality for `Eq`, less-than for `Lt` and for `Gt` alike.
pub proof fn comparison_pushes_a_flag(m: Machine, op: Op, pc: usize)
    requires
        op is Eq || op is Lt || op is Gt,
    ensures
        ({
            let (after, s) = dispatch(m, op, pc);
            let n = m.stack.len() as int;
            &&& s == Step::Continue((pc + 1) as usize)
            &&& after.stack.len() > 0
            &&& after.stack.drop_last() == pop(pop(m.stack))
            &&& after.stack.last() == 0 || after.stack.last() == 1
            &&& after.memory == m.memory
            &&& after.labels == m.labels
            &&& after.output == m.output
            &&& n >= 2 ==> (after.stack.last() == 1 <==> if op is Eq {
                m.stack[n - 1] == m.stack[n - 2]
            } else {
                m.stack[n - 1] < m.stack[n - 2]
            })
        }),
{
    let after = dispatch(m, op, pc).0;
    assert(after.stack.drop_last() =~= pop(pop(m.stack)));
}

} // verus!
