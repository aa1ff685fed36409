//! The target machine, as far as the emitted lines use it, and what the
//! emitted lines do when they run on it.
//!
//! The machine has an address register `A`, a data register `D` and a memory
//! of 16-bit words; `M` is the word that `A` addresses. The word at the
//! address `SP` holds the address of the next free slot above the top of the
//! stack.

use super::all_supported;
use super::combine_line;
use super::emission;
use super::is_supported;
use super::lowering;
use super::preamble;
use crate::parser::Arithmetic;
use crate::parser::Operation;
use vstd::prelude::*;

verus! {

/// The registers and the memory of the machine.
pub struct Machine {
    /// The address register.
    pub a: u16,
    /// The data register.
    pub d: u16,
    /// The memory, word by word from address 0.
    pub ram: Seq<u16>,
}

/// The address that the symbol `SP` stands for.
pub open spec fn sp_address() -> u16 {
    0
}

/// `x + y` in 16 bits.
pub open spec fn word_sum(x: u16, y: u16) -> u16 {
    ((x + y) % 0x10000) as u16
}

/// `x - y` in 16 bits.
pub open spec fn word_difference(x: u16, y: u16) -> u16 {
    ((x - y) % 0x10000) as u16
}

/// The machine after it has run the one line `line`. A line outside the
/// emitted vocabulary leaves the machine as it is.
pub open spec fn step(m: Machine, line: Seq<char>) -> Machine {
    let here = m.a as int;
    if line == "@SP"@ {
        Machine { a: sp_address(), ..m }
    } else if line == "AM=M-1"@ {
        let below = word_difference(m.ram[here], 1);
        Machine { a: below, ram: m.ram.update(here, below), ..m }
    } else if line == "D=M"@ {
        Machine { d: m.ram[here], ..m }
    } else if line == "A=A-1"@ {
        Machine { a: word_difference(m.a, 1), ..m }
    } else if line == "M=M+D"@ {
        Machine { ram: m.ram.update(here, word_sum(m.ram[here], m.d)), ..m }
    } else if line == "M=M-D"@ {
        Machine { ram: m.ram.update(here, word_difference(m.ram[here], m.d)), ..m }
    } else if line == "M=M&D"@ {
        Machine { ram: m.ram.update(here, m.ram[here] & m.d), ..m }
    } else if line == "M=M|D"@ {
        Machine { ram: m.ram.update(here, m.ram[here] | m.d), ..m }
    } else {
        m
    }
}

/// The machine after it has run `lines`, one after the other.
pub open spec fn run(m: Machine, lines: Seq<Seq<char>>) -> Machine
    decreases lines.len(),
{
    if lines.len() == 0 {
        m
    } else {
        step(run(m, lines.drop_last()), lines.last())
    }
}

/// What a binary operation makes of `x`, pushed first, and `y`, pushed last.
pub open spec fn combined(op: Arithmetic, x: u16, y: u16) -> u16 {
    match op {
        Arithmetic::Add => word_sum(x, y),
        Arithmetic::Sub => word_difference(x, y),
        Arithmetic::And => x & y,
        Arithmetic::Or => x | y,
        _ => x,
    }
}

/// The stack after a binary operation: the two topmost values give way to
/// what the operation makes of them.
pub open spec fn applied(op: Arithmetic, stack: Seq<u16>) -> Seq<u16> {
    let depth = stack.len() as int;
    stack.take(depth - 2).push(combined(op, stack[depth - 2], stack[depth - 1]))
}

/// The stack after the supported operations of `ops`, applied in order.
/// Operations without a lowering are passed over.
pub open spec fn evaluated(ops: Seq<Operation>, stack: Seq<u16>) -> Seq<u16>
    decreases ops.len(),
{
    if ops.len() == 0 {
        stack
    } else {
        let before = evaluated(ops.drop_last(), stack);
        match ops.last() {
            Operation::Arithmetic(op) => if combine_line(op) is Some {
                applied(op, before)
            } else {
                before
            },
            _ => before,
        }
    }
}

/// Whether the memory of `m` holds `stack` from the address `base` upwards,
/// above the stack pointer's own word, with the stack pointer at the next
/// free slot.
pub open spec fn holds_stack(m: Machine, base: int, stack: Seq<u16>) -> bool {
    &&& sp_address() < base
    &&& base + stack.len() <= m.ram.len()
    &&& base + stack.len() <= u16::MAX
    &&& m.ram[sp_address() as int] == base + stack.len()
    &&& forall|i: int| 0 <= i < stack.len() ==> m.ram[base + i] == #[trigger] stack[i]
}

/// Whether `m` and `other` hold the same words everywhere but at the stack
/// pointer and from `base` up to, not including, `end`.
pub open spec fn same_outside(m: Machine, other: Machine, base: int, end: int) -> bool {
    &&& m.ram.len() == other.ram.len()
    &&& forall|i: int|
        0 <= i < m.ram.len() && i != sp_address() && !(base <= i < end) ==> m.ram[i]
            == other.ram[i]
}

/// Running one line after `lines` is one step from where `lines` leave the
/// machine.
pub proof fn lemma_run_push(m: Machine, lines: Seq<Seq<char>>, line: Seq<char>)
    ensures
        run(m, lines.push(line)) == step(run(m, lines), line),
{
    assert(lines.push(line).drop_last() =~= lines);
}

/// Running two runs of lines, one after the other, is running the second
/// from where the first leaves the machine.
pub proof fn lemma_run_concat(m: Machine, first: Seq<Seq<char>>, second: Seq<Seq<char>>)
    ensures
        run(m, first + second) == run(run(m, first), second),
    decreases second.len(),
{
    if second.len() == 0 {
        assert(first + second =~= first);
    } else {
        assert((first + second).drop_last() =~= first + second.drop_last());
        lemma_run_concat(m, first, second.drop_last());
    }
}

/// What tells the emitted lines from one another: their lengths and a few
/// of their characters.
proof fn lemma_lines_differ()
    ensures
        "@SP"@.len() == 3,
        "AM=M-1"@.len() == 6,
        "D=M"@.len() == 3,
        "D=M"@[0] == 'D',
        "@SP"@[0] == '@',
        "A=A-1"@.len() == 5,
        "A=A-1"@[0] == 'A',
        "M=M+D"@.len() == 5,
        "M=M-D"@.len() == 5,
        "M=M&D"@.len() == 5,
        "M=M|D"@.len() == 5,
        "M=M+D"@[0] == 'M',
        "M=M-D"@[0] == 'M',
        "M=M&D"@[0] == 'M',
        "M=M|D"@[0] == 'M',
        "M=M+D"@[3] == '+',
        "M=M-D"@[3] == '-',
        "M=M&D"@[3] == '&',
        "M=M|D"@[3] == '|',
{
    reveal_strlit("@SP");
    reveal_strlit("AM=M-1");
    reveal_strlit("D=M");
    reveal_strlit("A=A-1");
    reveal_strlit("M=M+D");
    reveal_strlit("M=M-D");
    reveal_strlit("M=M&D");
    reveal_strlit("M=M|D");
}

/// What each line of the preamble does.
proof fn lemma_preamble_steps(m: Machine)
    ensures
        step(m, "@SP"@) == (Machine { a: sp_address(), ..m }),
        step(m, "AM=M-1"@) == (Machine {
            a: word_difference(m.ram[m.a as int], 1),
            ram: m.ram.update(m.a as int, word_difference(m.ram[m.a as int], 1)),
            ..m
        }),
        step(m, "D=M"@) == (Machine { d: m.ram[m.a as int], ..m }),
        step(m, "A=A-1"@) == (Machine { a: word_difference(m.a, 1), ..m }),
{
    lemma_lines_differ();
}

/// What the combining line of each supported operation does.
proof fn lemma_combine_step(op: Arithmetic, m: Machine)
    requires
        combine_line(op) is Some,
    ensures
        step(m, combine_line(op).unwrap()) == (Machine {
            ram: m.ram.update(m.a as int, combined(op, m.ram[m.a as int], m.d)),
            ..m
        }),
{
    lemma_lines_differ();
}

/// The preamble takes the top of the stack into `D`, lowers the stack
/// pointer by one and leaves `A` at the value below the top.
pub proof fn lemma_preamble_runs(m: Machine)
    requires
        sp_address() < m.ram.len(),
        2 <= m.ram[sp_address() as int] <= m.ram.len(),
    ensures
        run(m, preamble()) == (Machine {
            a: (m.ram[sp_address() as int] - 2) as u16,
            d: m.ram[m.ram[sp_address() as int] - 1],
            ram: m.ram.update(sp_address() as int, (m.ram[sp_address() as int] - 1) as u16),
        }),
{
    let sp = m.ram[sp_address() as int];
    let none = Seq::<Seq<char>>::empty();
    let one = none.push("@SP"@);
    let two = one.push("AM=M-1"@);
    let three = two.push("D=M"@);
    assert(preamble() =~= three.push("A=A-1"@));
    assert(run(m, none) == m);
    lemma_run_push(m, none, "@SP"@);
    lemma_run_push(m, one, "AM=M-1"@);
    lemma_run_push(m, two, "D=M"@);
    lemma_run_push(m, three, "A=A-1"@);
    let m1 = run(m, one);
    let m2 = run(m, two);
    let m3 = run(m, three);
    lemma_preamble_steps(m);
    lemma_preamble_steps(m1);
    lemma_preamble_steps(m2);
    lemma_preamble_steps(m3);
    assert(word_difference(sp, 1) == sp - 1);
    assert(word_difference((sp - 1) as u16, 1) == sp - 2);
    assert(m1.a == sp_address() && m1.ram == m.ram);
    assert(m2.a == sp - 1);
    assert(m2.ram[sp - 1] == m.ram[sp - 1]);
}

/// The lines of a supported operation take the two topmost values of the
/// stack, put what the operation makes of them in the place of the lower
/// one, and lower the stack pointer by one. No other word changes.
pub proof fn lemma_lowering_runs(op: Arithmetic, m: Machine)
    requires
        is_supported(Operation::Arithmetic(op)),
        sp_address() < m.ram.len(),
        sp_address() + 2 < m.ram[sp_address() as int] <= m.ram.len(),
    ensures
        ({
            let sp = m.ram[sp_address() as int];
            let after = run(m, lowering(Operation::Arithmetic(op)));
            after.ram == m.ram.update(sp_address() as int, (sp - 1) as u16).update(
                sp - 2,
                combined(op, m.ram[sp - 2], m.ram[sp - 1]),
            )
        }),
{
    lemma_preamble_runs(m);
    lemma_run_push(m, preamble(), combine_line(op).unwrap());
    lemma_combine_step(op, run(m, preamble()));
}

/// Where the memory holds a stack that is deep enough, the emitted lines of
/// supported operations leave in its place the stack that the operations
/// make of it, and change no word outside the stack and its pointer.
pub proof fn lemma_emission_runs(ops: Seq<Operation>, m: Machine, base: int, stack: Seq<u16>)
    requires
        all_supported(ops),
        holds_stack(m, base, stack),
        ops.len() > 0 ==> ops.len() < stack.len(),
    ensures
        evaluated(ops, stack).len() == stack.len() - ops.len(),
        holds_stack(run(m, emission(ops)), base, evaluated(ops, stack)),
        same_outside(run(m, emission(ops)), m, base, base + stack.len()),
    decreases ops.len(),
{
    if ops.len() > 0 {
        let front = ops.drop_last();
        assert forall|i: int| 0 <= i < front.len() implies is_supported(#[trigger] front[i]) by {
            assert(front[i] == ops[i]);
        }
        lemma_emission_runs(front, m, base, stack);
        let middle = run(m, emission(front));
        let before = evaluated(front, stack);
        assert(is_supported(ops[ops.len() - 1]));
        let op = ops.last()->Arithmetic_0;
        lemma_run_concat(m, emission(front), lowering(ops.last()));
        let sp = base + before.len();
        assert(middle.ram[sp - 2] == before[before.len() - 2]);
        assert(middle.ram[sp - 1] == before[before.len() - 1]);
        lemma_lowering_runs(op, middle);
        let after = run(m, emission(ops));
        let result = evaluated(ops, stack);
        assert(result == applied(op, before));
        assert forall|i: int| 0 <= i < result.len() implies after.ram[base + i]
            == #[trigger] result[i] by {
            if i < result.len() - 1 {
                assert(result[i] == before[i]);
            }
        }
    }
}

} // verus!
