//! What holds of the translation of every sequence of operations.

use super::all_supported;
use super::combine_line;
use super::emission;
use super::is_first_unsupported;
use super::is_supported;
use super::lines_of;
use super::lowering;
use super::translates_to;
use super::UnsupportedOperation;
use crate::parser::Arithmetic;
use crate::parser::Operation;
use vstd::prelude::*;

verus! {

/// The operations that have a lowering are `add`, `sub`, `and` and `or`;
/// the other arithmetic commands, every push and every pop have none.
pub proof fn lemma_supported_operations(op: Operation)
    ensures
        is_supported(op) <==> (op == Operation::Arithmetic(Arithmetic::Add) || op
            == Operation::Arithmetic(Arithmetic::Sub) || op == Operation::Arithmetic(
            Arithmetic::And,
        ) || op == Operation::Arithmetic(Arithmetic::Or)),
{
}

/// No operations give no lines, and none of them is unsupported.
pub proof fn lemma_empty_emission()
    ensures
        all_supported(Seq::<Operation>::empty()),
        emission(Seq::<Operation>::empty()) == Seq::<Seq<char>>::empty(),
{
}

/// For the empty input the translator owes success with no line.
pub proof fn lemma_empty_translation(result: Result<Vec<&'static str>, UnsupportedOperation>)
    requires
        translates_to(Seq::<Operation>::empty(), result),
    ensures
        result is Ok,
        result.unwrap()@.len() == 0,
{
    lemma_empty_emission();
    assert(lines_of(result.unwrap()@).len() == 0);
}

/// A supported arithmetic command gives five lines: the preamble, then the
/// line that combines the two topmost values in place.
pub proof fn lemma_supported_emission(op: Arithmetic)
    requires
        is_supported(Operation::Arithmetic(op)),
    ensures
        emission(seq![Operation::Arithmetic(op)]) == lowering(Operation::Arithmetic(op)),
        lowering(Operation::Arithmetic(op)) == seq![
            "@SP"@,
            "AM=M-1"@,
            "D=M"@,
            "A=A-1"@,
            match op {
                Arithmetic::Add => "M=M+D"@,
                Arithmetic::Sub => "M=M-D"@,
                Arithmetic::And => "M=M&D"@,
                _ => "M=M|D"@,
            },
        ],
{
    let single = seq![Operation::Arithmetic(op)];
    assert(single.drop_last() =~= Seq::<Operation>::empty());
    assert(emission(single.drop_last()) =~= Seq::<Seq<char>>::empty());
    assert(emission(single) =~= lowering(single.last()));
    assert(lowering(Operation::Arithmetic(op)) =~= seq![
        "@SP"@,
        "AM=M-1"@,
        "D=M"@,
        "A=A-1"@,
        combine_line(op).unwrap(),
    ]);
}

/// The emission of two sequences, one after the other, is the emission of
/// the first followed by that of the second, and the whole is supported
/// where both parts are.
pub proof fn lemma_emission_concat(first: Seq<Operation>, second: Seq<Operation>)
    ensures
        emission(first + second) == emission(first) + emission(second),
        all_supported(first + second) <==> all_supported(first) && all_supported(second),
    decreases second.len(),
{
    let whole = first + second;
    if second.len() == 0 {
        assert(whole =~= first);
        assert(emission(first) + emission(second) =~= emission(first));
    } else {
        assert(whole.drop_last() =~= first + second.drop_last());
        assert(whole.last() == second.last());
        lemma_emission_concat(first, second.drop_last());
        assert(emission(whole) =~= emission(first) + emission(second));
    }
    if all_supported(whole) {
        assert forall|i: int| 0 <= i < first.len() implies is_supported(#[trigger] first[i]) by {
            assert(first[i] == whole[i]);
        }
        assert forall|i: int| 0 <= i < second.len() implies is_supported(#[trigger] second[i]) by {
            assert(second[i] == whole[first.len() + i]);
        }
    }
}

/// Translating two sequences of supported operations, one after the other,
/// gives the lines of the first followed by the lines of the second.
pub proof fn lemma_translation_concat(
    first: Seq<Operation>,
    second: Seq<Operation>,
    first_result: Result<Vec<&'static str>, UnsupportedOperation>,
    second_result: Result<Vec<&'static str>, UnsupportedOperation>,
    whole_result: Result<Vec<&'static str>, UnsupportedOperation>,
)
    requires
        all_supported(first),
        all_supported(second),
        translates_to(first, first_result),
        translates_to(second, second_result),
        translates_to(first + second, whole_result),
    ensures
        first_result is Ok,
        second_result is Ok,
        whole_result is Ok,
        lines_of(whole_result.unwrap()@) == lines_of(first_result.unwrap()@) + lines_of(
            second_result.unwrap()@,
        ),
{
    lemma_emission_concat(first, second);
}

/// At most one place is that of the first unsupported operation.
pub proof fn lemma_first_unsupported_unique(ops: Seq<Operation>, index: int, other: int)
    requires
        is_first_unsupported(ops, index),
        is_first_unsupported(ops, other),
    ensures
        index == other,
{
    if index < other {
        assert(ops.take(other)[index] == ops[index]);
    }
    if other < index {
        assert(ops.take(index)[other] == ops[other]);
    }
}

/// The translation is a function of the input: two results for one input
/// hold the same lines, character by character, or the same error.
pub proof fn lemma_translation_deterministic(
    ops: Seq<Operation>,
    one: Result<Vec<&'static str>, UnsupportedOperation>,
    other: Result<Vec<&'static str>, UnsupportedOperation>,
)
    requires
        translates_to(ops, one),
        translates_to(ops, other),
    ensures
        match (one, other) {
            (Ok(lines), Ok(others)) => lines_of(lines@) == lines_of(others@),
            (Err(e), Err(f)) => e == f,
            _ => false,
        },
{
    match (one, other) {
        (Err(e), Err(f)) => {
            lemma_first_unsupported_unique(ops, e.index as int, f.index as int);
        },
        _ => {},
    }
}

/// Whether `line` is one of the eight lines that the translator emits.
pub open spec fn is_emitted_line(line: Seq<char>) -> bool {
    line == "@SP"@ || line == "AM=M-1"@ || line == "D=M"@ || line == "A=A-1"@ || line == "M=M+D"@
        || line == "M=M-D"@ || line == "M=M&D"@ || line == "M=M|D"@
}

/// Every line of an emission is one of the eight emitted lines.
pub proof fn lemma_emission_vocabulary(ops: Seq<Operation>)
    ensures
        forall|i: int| 0 <= i < emission(ops).len() ==> is_emitted_line(#[trigger] emission(ops)[i]),
    decreases ops.len(),
{
    if ops.len() > 0 {
        let front = emission(ops.drop_last());
        let back = lowering(ops.last());
        lemma_emission_vocabulary(ops.drop_last());
        assert forall|i: int| 0 <= i < emission(ops).len() implies is_emitted_line(
            #[trigger] emission(ops)[i],
        ) by {
            if i < front.len() {
                assert(emission(ops)[i] == front[i]);
            } else {
                assert(emission(ops)[i] == back[i - front.len()]);
            }
        }
    }
}

/// An emitted line holds no line break and no blank.
pub proof fn lemma_emitted_line_is_one_line(line: Seq<char>)
    requires
        is_emitted_line(line),
    ensures
        forall|j: int| 0 <= j < line.len() ==> line[j] != '\n' && line[j] != '\r' && line[j] != ' ',
{
    reveal_strlit("@SP");
    reveal_strlit("AM=M-1");
    reveal_strlit("D=M");
    reveal_strlit("A=A-1");
    reveal_strlit("M=M+D");
    reveal_strlit("M=M-D");
    reveal_strlit("M=M&D");
    reveal_strlit("M=M|D");
}

/// Every supported operation gives five lines.
pub proof fn lemma_emission_len(ops: Seq<Operation>)
    requires
        all_supported(ops),
    ensures
        emission(ops).len() == 5 * ops.len(),
    decreases ops.len(),
{
    if ops.len() > 0 {
        assert forall|i: int| 0 <= i < ops.len() - 1 implies is_supported(
            #[trigger] ops.drop_last()[i],
        ) by {
            assert(ops.drop_last()[i] == ops[i]);
        }
        lemma_emission_len(ops.drop_last());
        assert(is_supported(ops[ops.len() - 1]));
    }
}

} // verus!
