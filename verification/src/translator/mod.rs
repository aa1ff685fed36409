//! The code generator: a sequence of operations in, assembly lines out.

pub mod laws;
pub mod machine;

use crate::parser::Arithmetic;
use crate::parser::Operation;
use vstd::prelude::*;

verus! {

/// The code generator for Hack assembly.
pub struct Translator;

/// The translator met an operation that it has no lowering for.
#[derive(Debug, PartialEq, Eq, Clone, Copy, Structural)]
pub struct UnsupportedOperation {
    /// Position, in the input sequence, of the first such operation.
    pub index: usize,
}

/// The text of each line in `lines`.
pub open spec fn lines_of(lines: Seq<&'static str>) -> Seq<Seq<char>> {
    Seq::new(lines.len(), |i: int| lines[i]@)
}

/// The line that combines the two topmost stack values for `op`: `Some` for
/// the binary operations that have a lowering, `None` for the others.
pub open spec fn combine_line(op: Arithmetic) -> Option<Seq<char>> {
    match op {
        Arithmetic::Add => Some("M=M+D"@),
        Arithmetic::Sub => Some("M=M-D"@),
        Arithmetic::And => Some("M=M&D"@),
        Arithmetic::Or => Some("M=M|D"@),
        _ => None,
    }
}

/// The four lines that pop the top of the stack into `D` and leave `A`
/// pointing at the new top.
pub open spec fn preamble() -> Seq<Seq<char>> {
    seq!["@SP"@, "AM=M-1"@, "D=M"@, "A=A-1"@]
}

/// Whether the translator has a lowering for `op`.
pub open spec fn is_supported(op: Operation) -> bool {
    match op {
        Operation::Arithmetic(a) => combine_line(a) is Some,
        _ => false,
    }
}

/// The assembly lines of one operation: the preamble and the combining line
/// where the operation is supported, nothing where it is not.
pub open spec fn lowering(op: Operation) -> Seq<Seq<char>> {
    match op {
        Operation::Arithmetic(a) => match combine_line(a) {
            Some(line) => preamble().push(line),
            None => Seq::empty(),
        },
        _ => Seq::empty(),
    }
}

/// The lowerings of `ops`, one after the other in input order.
pub open spec fn emission(ops: Seq<Operation>) -> Seq<Seq<char>>
    decreases ops.len(),
{
    if ops.len() == 0 {
        Seq::empty()
    } else {
        emission(ops.drop_last()) + lowering(ops.last())
    }
}

/// Whether every operation of `ops` is supported.
pub open spec fn all_supported(ops: Seq<Operation>) -> bool {
    forall|i: int| 0 <= i < ops.len() ==> is_supported(#[trigger] ops[i])
}

/// Whether `index` is the place of the first operation of `ops` that has no
/// lowering.
pub open spec fn is_first_unsupported(ops: Seq<Operation>, index: int) -> bool {
    0 <= index < ops.len() && !is_supported(ops[index]) && all_supported(ops.take(index))
}

/// What the translator owes for `ops`: the emission where every operation
/// is supported, else an error that names the first one that is not.
pub open spec fn translates_to(
    ops: Seq<Operation>,
    result: Result<Vec<&'static str>, UnsupportedOperation>,
) -> bool {
    match result {
        Ok(lines) => all_supported(ops) && lines_of(lines@) == emission(ops),
        Err(e) => is_first_unsupported(ops, e.index as int),
    }
}

/// The combining line of `op`, from the one table of emitted operation lines.
pub fn combine_instruction(op: Arithmetic) -> (line: Option<&'static str>)
    ensures
        match line {
            Some(text) => combine_line(op) == Some(text@),
            None => combine_line(op) is None,
        },
{
    match op {
        Arithmetic::Add => Some("M=M+D"),
        Arithmetic::Sub => Some("M=M-D"),
        Arithmetic::And => Some("M=M&D"),
        Arithmetic::Or => Some("M=M|D"),
        _ => None,
    }
}

impl Translator {
    /// Lowers `operations` into assembly lines.
    ///
    /// Where every operation is supported, the result is the concatenation of
    /// their lowerings in input order. Otherwise nothing is emitted and the
    /// error names the first operation that has no lowering.
    pub fn translate(operations: &[Operation]) -> (result: Result<
        Vec<&'static str>,
        UnsupportedOperation,
    >)
        ensures
            translates_to(operations@, result),
            result is Ok <==> all_supported(operations@),
    {
        let mut instructions: Vec<&'static str> = Vec::new();
        let mut i: usize = 0;
        while i < operations.len()
            invariant
                i <= operations@.len(),
                all_supported(operations@.take(i as int)),
                lines_of(instructions@) == emission(operations@.take(i as int)),
            decreases operations@.len() - i,
        {
            let ghost before = operations@.take(i as int);
            let ghost after = operations@.take(i + 1);
            proof {
                assert(after.drop_last() == before);
                assert(after.last() == operations@[i as int]);
            }
            match operations[i] {
                Operation::Arithmetic(arithmetic) => match combine_instruction(arithmetic) {
                    Some(line) => {
                        Translator::arithmetic_calculation_template(&mut instructions);
                        let ghost opened = instructions@;
                        instructions.push(line);
                        assert(lines_of(instructions@) =~= lines_of(opened).push(line@));
                        assert(lines_of(instructions@) =~= emission(before) + lowering(
                            operations@[i as int],
                        ));
                    },
                    None => {
                        return Err(UnsupportedOperation { index: i });
                    },
                },
                _ => {
                    return Err(UnsupportedOperation { index: i });
                },
            }
            i += 1;
        }
        assert(operations@.take(i as int) == operations@);
        Ok(instructions)
    }

    /// Appends the preamble that every binary operation starts with.
    pub fn arithmetic_calculation_template(instructions: &mut Vec<&'static str>)
        ensures
            lines_of(final(instructions)@) == lines_of(old(instructions)@) + preamble(),
    {
        instructions.push("@SP");
        instructions.push("AM=M-1");
        instructions.push("D=M");
        instructions.push("A=A-1");
    }
}

} // verus!
