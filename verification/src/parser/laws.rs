//! What holds of the grammar for every line: keywords cannot be taken for
//! one another, every well-formed line parses to the operation that it
//! spells, and a line that starts with no keyword is refused.

use super::grammar::arithmetic_of;
use super::grammar::arithmetic_word;
use super::grammar::opens_with_arithmetic;
use super::grammar::opens_with_segment;
use super::grammar::parsed_line;
use super::grammar::parsed_operands;
use super::grammar::parsed_segment;
use super::grammar::pop_word;
use super::grammar::push_word;
use super::grammar::segment_of;
use super::grammar::segment_word;
use super::integer::has_sign;
use super::integer::integer_of;
use super::integer::integer_text;
use super::integer::is_digit;
use super::integer::lemma_integer_text_denotes;
use super::scan::all_blank;
use super::scan::blank_run;
use super::scan::is_blank;
use super::scan::lemma_blank_run_bounds;
use super::scan::lemma_blank_run_is;
use super::Arithmetic;
use super::Operation;
use super::ParseError;
use super::Segment;
use vstd::prelude::*;

verus! {

/// The line that spells a push or a pop: the keyword, blanks, the segment's
/// keyword, blanks, and the text of the integer.
pub open spec fn operand_line(
    keyword: Seq<char>,
    lead: Seq<char>,
    segment: Segment,
    gap: Seq<char>,
    text: Seq<char>,
) -> Seq<char> {
    keyword + lead + segment_word(segment) + gap + text
}

/// Whether `blanks` can stand between two tokens: one or more characters,
/// each a space or a tab.
pub open spec fn separates(blanks: Seq<char>) -> bool {
    blanks.len() > 0 && all_blank(blanks)
}

/// The letters of each arithmetic keyword.
pub proof fn lemma_arithmetic_spelling(op: Arithmetic)
    ensures
        arithmetic_word(op) == match op {
            Arithmetic::Add => seq!['a', 'd', 'd'],
            Arithmetic::Sub => seq!['s', 'u', 'b'],
            Arithmetic::Neg => seq!['n', 'e', 'g'],
            Arithmetic::Eq => seq!['e', 'q'],
            Arithmetic::Gt => seq!['g', 't'],
            Arithmetic::Lt => seq!['l', 't'],
            Arithmetic::And => seq!['a', 'n', 'd'],
            Arithmetic::Or => seq!['o', 'r'],
            Arithmetic::Not => seq!['n', 'o', 't'],
        },
{
    reveal_strlit("add");
    reveal_strlit("sub");
    reveal_strlit("neg");
    reveal_strlit("eq");
    reveal_strlit("gt");
    reveal_strlit("lt");
    reveal_strlit("and");
    reveal_strlit("or");
    reveal_strlit("not");
    match op {
        Arithmetic::Add => assert(arithmetic_word(op) =~= seq!['a', 'd', 'd']),
        Arithmetic::Sub => assert(arithmetic_word(op) =~= seq!['s', 'u', 'b']),
        Arithmetic::Neg => assert(arithmetic_word(op) =~= seq!['n', 'e', 'g']),
        Arithmetic::Eq => assert(arithmetic_word(op) =~= seq!['e', 'q']),
        Arithmetic::Gt => assert(arithmetic_word(op) =~= seq!['g', 't']),
        Arithmetic::Lt => assert(arithmetic_word(op) =~= seq!['l', 't']),
        Arithmetic::And => assert(arithmetic_word(op) =~= seq!['a', 'n', 'd']),
        Arithmetic::Or => assert(arithmetic_word(op) =~= seq!['o', 'r']),
        Arithmetic::Not => assert(arithmetic_word(op) =~= seq!['n', 'o', 't']),
    }
}

/// The letters of each segment keyword.
pub proof fn lemma_segment_spelling(segment: Segment)
    ensures
        segment_word(segment) == match segment {
            Segment::Constant => seq!['c', 'o', 'n', 's', 't', 'a', 'n', 't'],
            Segment::Local => seq!['l', 'o', 'c', 'a', 'l'],
            Segment::Argument => seq!['a', 'r', 'g', 'u', 'm', 'e', 'n', 't'],
            Segment::This => seq!['t', 'h', 'i', 's'],
            Segment::That => seq!['t', 'h', 'a', 't'],
            Segment::Pointer => seq!['p', 'o', 'i', 'n', 't', 'e', 'r'],
            Segment::Static => seq!['s', 't', 'a', 't', 'i', 'c'],
        },
{
    reveal_strlit("constant");
    reveal_strlit("local");
    reveal_strlit("argument");
    reveal_strlit("this");
    reveal_strlit("that");
    reveal_strlit("pointer");
    reveal_strlit("static");
    match segment {
        Segment::Constant => assert(segment_word(segment) =~= seq![
            'c',
            'o',
            'n',
            's',
            't',
            'a',
            'n',
            't',
        ]),
        Segment::Local => assert(segment_word(segment) =~= seq!['l', 'o', 'c', 'a', 'l']),
        Segment::Argument => assert(segment_word(segment) =~= seq![
            'a',
            'r',
            'g',
            'u',
            'm',
            'e',
            'n',
            't',
        ]),
        Segment::This => assert(segment_word(segment) =~= seq!['t', 'h', 'i', 's']),
        Segment::That => assert(segment_word(segment) =~= seq!['t', 'h', 'a', 't']),
        Segment::Pointer => assert(segment_word(segment) =~= seq![
            'p',
            'o',
            'i',
            'n',
            't',
            'e',
            'r',
        ]),
        Segment::Static => assert(segment_word(segment) =~= seq!['s', 't', 'a', 't', 'i', 'c']),
    }
}

/// The letters of the two keywords that take operands.
pub proof fn lemma_operand_keyword_spelling()
    ensures
        push_word() == seq!['p', 'u', 's', 'h'],
        pop_word() == seq!['p', 'o', 'p'],
{
    reveal_strlit("push");
    reveal_strlit("pop");
    assert(push_word() =~= seq!['p', 'u', 's', 'h']);
    assert(pop_word() =~= seq!['p', 'o', 'p']);
}

/// A text that starts with a word holds the word's characters at its start.
proof fn lemma_prefix_chars(word: Seq<char>, text: Seq<char>)
    requires
        word.is_prefix_of(text),
    ensures
        word.len() <= text.len(),
        forall|i: int| 0 <= i < word.len() ==> text[i] == word[i],
{
    assert forall|i: int| 0 <= i < word.len() implies text[i] == word[i] by {
        assert(text.subrange(0, word.len() as int)[i] == text[i]);
    }
}

/// What `text` starts with, for each arithmetic keyword that it starts with.
proof fn lemma_arithmetic_openings(text: Seq<char>)
    ensures
        forall|op: Arithmetic| #[trigger]
            opens_with_arithmetic(text, op) ==> arithmetic_word(op).len() <= text.len() && (
            forall|i: int| 0 <= i < arithmetic_word(op).len() ==> text[i] == arithmetic_word(op)[i]),
{
    assert forall|op: Arithmetic| #[trigger] opens_with_arithmetic(text, op) implies arithmetic_word(
        op,
    ).len() <= text.len() && (forall|i: int|
        0 <= i < arithmetic_word(op).len() ==> text[i] == arithmetic_word(op)[i]) by {
        lemma_prefix_chars(arithmetic_word(op), text);
    }
}

/// What `text` starts with, for each segment keyword that it starts with.
proof fn lemma_segment_openings(text: Seq<char>)
    ensures
        forall|segment: Segment| #[trigger]
            opens_with_segment(text, segment) ==> segment_word(segment).len() <= text.len() && (
            forall|i: int| 0 <= i < segment_word(segment).len() ==> text[i] == segment_word(segment)[i]),
{
    assert forall|segment: Segment| #[trigger]
        opens_with_segment(text, segment) implies segment_word(segment).len() <= text.len() && (
    forall|i: int| 0 <= i < segment_word(segment).len() ==> text[i] == segment_word(segment)[i]) by {
        lemma_prefix_chars(segment_word(segment), text);
    }
}

/// No arithmetic keyword starts with another: a text that starts with the
/// keyword of `op` is recognized as `op`, whatever the order of the trials.
pub proof fn lemma_arithmetic_unambiguous(text: Seq<char>, op: Arithmetic)
    requires
        opens_with_arithmetic(text, op),
    ensures
        arithmetic_of(text) == Some(op),
{
    lemma_arithmetic_openings(text);
    lemma_arithmetic_spelling(Arithmetic::Add);
    lemma_arithmetic_spelling(Arithmetic::Sub);
    lemma_arithmetic_spelling(Arithmetic::Neg);
    lemma_arithmetic_spelling(Arithmetic::Eq);
    lemma_arithmetic_spelling(Arithmetic::Gt);
    lemma_arithmetic_spelling(Arithmetic::Lt);
    lemma_arithmetic_spelling(Arithmetic::And);
    lemma_arithmetic_spelling(Arithmetic::Or);
    lemma_arithmetic_spelling(Arithmetic::Not);
}

/// No segment keyword starts with another: a text that starts with the
/// keyword of `segment` is recognized as `segment`.
pub proof fn lemma_segment_unambiguous(text: Seq<char>, segment: Segment)
    requires
        opens_with_segment(text, segment),
    ensures
        segment_of(text) == Some(segment),
{
    lemma_segment_openings(text);
    lemma_segment_spelling(Segment::Constant);
    lemma_segment_spelling(Segment::Local);
    lemma_segment_spelling(Segment::Argument);
    lemma_segment_spelling(Segment::This);
    lemma_segment_spelling(Segment::That);
    lemma_segment_spelling(Segment::Pointer);
    lemma_segment_spelling(Segment::Static);
}

/// A text that starts with the letter `p` starts with no arithmetic keyword.
proof fn lemma_no_arithmetic_in_p(text: Seq<char>)
    requires
        text.len() > 0,
        text[0] == 'p',
    ensures
        arithmetic_of(text) is None,
{
    lemma_arithmetic_openings(text);
    lemma_arithmetic_spelling(Arithmetic::Add);
    lemma_arithmetic_spelling(Arithmetic::Sub);
    lemma_arithmetic_spelling(Arithmetic::Neg);
    lemma_arithmetic_spelling(Arithmetic::Eq);
    lemma_arithmetic_spelling(Arithmetic::Gt);
    lemma_arithmetic_spelling(Arithmetic::Lt);
    lemma_arithmetic_spelling(Arithmetic::And);
    lemma_arithmetic_spelling(Arithmetic::Or);
    lemma_arithmetic_spelling(Arithmetic::Not);
}

/// Every line that starts with the keyword of an arithmetic command parses
/// to that command.
pub proof fn lemma_arithmetic_line_parses(line: Seq<char>, op: Arithmetic)
    requires
        opens_with_arithmetic(line, op),
    ensures
        parsed_line(line) == Ok::<Operation, ParseError>(Operation::Arithmetic(op)),
{
    lemma_arithmetic_unambiguous(line, op);
}

/// The keyword of every arithmetic command, taken as a line, parses to that
/// command.
pub proof fn lemma_arithmetic_keyword_parses(op: Arithmetic)
    ensures
        parsed_line(arithmetic_word(op)) == Ok::<Operation, ParseError>(Operation::Arithmetic(op)),
{
    let word = arithmetic_word(op);
    assert(word.subrange(0, word.len() as int) =~= word);
    lemma_arithmetic_line_parses(word, op);
}

/// The text of an integer starts with a sign or a digit, not with a blank.
pub proof fn lemma_integer_opening(text: Seq<char>)
    requires
        integer_of(text) is Some,
    ensures
        text.len() > 0,
        !is_blank(text[0]),
{
    if !has_sign(text) {
        assert(is_digit(text[0]));
    }
}

/// Between blanks, the keyword of a segment parses to that segment, and what
/// follows the second run of blanks is left over, where that starts with no
/// blank.
pub proof fn lemma_segment_parses(lead: Seq<char>, segment: Segment, gap: Seq<char>, rest: Seq<char>)
    requires
        separates(lead),
        separates(gap),
        rest.len() > 0 ==> !is_blank(rest[0]),
    ensures
        parsed_segment(lead + segment_word(segment) + gap + rest) == Ok::<
            (Seq<char>, Segment),
            ParseError,
        >((rest, segment)),
{
    let word = segment_word(segment);
    let input = lead + word + gap + rest;
    lemma_segment_spelling(segment);
    assert(word.len() > 0 && !is_blank(word[0]));
    assert(input.take(lead.len() as int) =~= lead);
    assert(input[lead.len() as int] == word[0]);
    lemma_blank_run_is(input, lead.len());
    let body = input.skip(lead.len() as int);
    assert(body =~= word + gap + rest);
    assert(body.subrange(0, word.len() as int) =~= word);
    lemma_segment_unambiguous(body, segment);
    let tail = body.skip(word.len() as int);
    assert(tail =~= gap + rest);
    assert(tail.take(gap.len() as int) =~= gap);
    if rest.len() > 0 {
        assert(tail[gap.len() as int] == rest[0]);
    }
    lemma_blank_run_is(tail, gap.len());
    assert(tail.skip(gap.len() as int) =~= rest);
}

/// After `keyword`, a segment's keyword and the text of an integer, set off
/// by blanks, parse to that segment and that integer.
pub proof fn lemma_operands_parse(
    keyword: Seq<char>,
    lead: Seq<char>,
    segment: Segment,
    gap: Seq<char>,
    text: Seq<char>,
    val: i32,
)
    requires
        separates(lead),
        separates(gap),
        integer_of(text) == Some(val),
    ensures
        parsed_operands(keyword, operand_line(keyword, lead, segment, gap, text)) == Ok::<
            (Segment, i32),
            ParseError,
        >((segment, val)),
{
    let line = operand_line(keyword, lead, segment, gap, text);
    lemma_integer_opening(text);
    assert(line.subrange(0, keyword.len() as int) =~= keyword);
    assert(line.skip(keyword.len() as int) =~= lead + segment_word(segment) + gap + text);
    lemma_segment_parses(lead, segment, gap, text);
}

/// A push parses to the segment and the integer that it spells, whatever
/// blanks, one or more, stand between its tokens.
pub proof fn lemma_push_parses(
    lead: Seq<char>,
    segment: Segment,
    gap: Seq<char>,
    text: Seq<char>,
    val: i32,
)
    requires
        separates(lead),
        separates(gap),
        integer_of(text) == Some(val),
    ensures
        parsed_line(operand_line(push_word(), lead, segment, gap, text)) == Ok::<
            Operation,
            ParseError,
        >(Operation::Push { segment, val }),
{
    let line = operand_line(push_word(), lead, segment, gap, text);
    lemma_operand_keyword_spelling();
    assert(line[0] == 'p');
    lemma_no_arithmetic_in_p(line);
    assert(line.subrange(0, push_word().len() as int) =~= push_word());
    lemma_operands_parse(push_word(), lead, segment, gap, text, val);
}

/// A pop parses to the segment and the integer that it spells, whatever
/// blanks, one or more, stand between its tokens.
pub proof fn lemma_pop_parses(
    lead: Seq<char>,
    segment: Segment,
    gap: Seq<char>,
    text: Seq<char>,
    val: i32,
)
    requires
        separates(lead),
        separates(gap),
        integer_of(text) == Some(val),
    ensures
        parsed_line(operand_line(pop_word(), lead, segment, gap, text)) == Ok::<
            Operation,
            ParseError,
        >(Operation::Pop { segment, val }),
{
    let line = operand_line(pop_word(), lead, segment, gap, text);
    lemma_operand_keyword_spelling();
    assert(line[0] == 'p');
    assert(line[1] == 'o');
    lemma_no_arithmetic_in_p(line);
    if push_word().is_prefix_of(line) {
        lemma_prefix_chars(push_word(), line);
    }
    assert(line.subrange(0, pop_word().len() as int) =~= pop_word());
    lemma_operands_parse(pop_word(), lead, segment, gap, text, val);
}

/// With one space between its tokens, a push of any segment and any 32-bit
/// integer parses to that segment and that integer.
pub proof fn lemma_push_line_parses(segment: Segment, val: i32)
    ensures
        parsed_line("push "@ + segment_word(segment) + " "@ + integer_text(val as int)) == Ok::<
            Operation,
            ParseError,
        >(Operation::Push { segment, val }),
{
    reveal_strlit("push ");
    reveal_strlit("push");
    reveal_strlit(" ");
    let space = seq![' '];
    assert(" "@ =~= space);
    assert("push "@ =~= push_word() + space);
    let text = integer_text(val as int);
    assert("push "@ + segment_word(segment) + " "@ + text =~= operand_line(
        push_word(),
        space,
        segment,
        space,
        text,
    ));
    lemma_integer_text_denotes(val);
    lemma_push_parses(space, segment, space, text, val);
}

/// With one space between its tokens, a pop of any segment and any 32-bit
/// integer parses to that segment and that integer.
pub proof fn lemma_pop_line_parses(segment: Segment, val: i32)
    ensures
        parsed_line("pop "@ + segment_word(segment) + " "@ + integer_text(val as int)) == Ok::<
            Operation,
            ParseError,
        >(Operation::Pop { segment, val }),
{
    reveal_strlit("pop ");
    reveal_strlit("pop");
    reveal_strlit(" ");
    let space = seq![' '];
    assert(" "@ =~= space);
    assert("pop "@ =~= pop_word() + space);
    let text = integer_text(val as int);
    assert("pop "@ + segment_word(segment) + " "@ + text =~= operand_line(
        pop_word(),
        space,
        segment,
        space,
        text,
    ));
    lemma_integer_text_denotes(val);
    lemma_pop_parses(space, segment, space, text, val);
}

/// A line parses to an arithmetic command only where it starts with the
/// keyword of that command.
pub proof fn lemma_arithmetic_shape(line: Seq<char>, op: Arithmetic)
    requires
        parsed_line(line) == Ok::<Operation, ParseError>(Operation::Arithmetic(op)),
    ensures
        opens_with_arithmetic(line, op),
{
}

/// Whether `input` spells, after `keyword`, the segment and an integer of
/// value `val`, with `lead` and `gap` as the blanks between the tokens and
/// `text` as the integer's text.
pub open spec fn spells_operands(
    input: Seq<char>,
    keyword: Seq<char>,
    lead: Seq<char>,
    segment: Segment,
    gap: Seq<char>,
    text: Seq<char>,
    val: i32,
) -> bool {
    separates(lead) && separates(gap) && integer_of(text) == Some(val) && input == operand_line(
        keyword,
        lead,
        segment,
        gap,
        text,
    )
}

/// A text yields a segment and an integer only where it is made of the
/// keyword, blanks, the segment's keyword, blanks, and a text that denotes
/// the integer.
pub proof fn lemma_operands_shape(keyword: Seq<char>, input: Seq<char>, segment: Segment, val: i32)
    requires
        parsed_operands(keyword, input) == Ok::<(Segment, i32), ParseError>((segment, val)),
    ensures
        exists|lead: Seq<char>, gap: Seq<char>, text: Seq<char>|
            spells_operands(input, keyword, lead, segment, gap, text, val),
{
    let after = input.skip(keyword.len() as int);
    let run = blank_run(after);
    lemma_blank_run_bounds(after);
    let lead = after.take(run as int);
    let body = after.skip(run as int);
    assert(segment_of(body) == Some(segment));
    assert(opens_with_segment(body, segment));
    let word = segment_word(segment);
    let tail = body.skip(word.len() as int);
    let space = blank_run(tail);
    lemma_blank_run_bounds(tail);
    let gap = tail.take(space as int);
    let text = tail.skip(space as int);
    assert(input =~= keyword + lead + word + gap + text) by {
        assert(keyword =~= input.subrange(0, keyword.len() as int));
        assert(word =~= body.subrange(0, word.len() as int));
    }
    assert(spells_operands(input, keyword, lead, segment, gap, text, val));
}

/// A line parses to a push only where it spells one.
pub proof fn lemma_push_shape(line: Seq<char>, segment: Segment, val: i32)
    requires
        parsed_line(line) == Ok::<Operation, ParseError>(Operation::Push { segment, val }),
    ensures
        exists|lead: Seq<char>, gap: Seq<char>, text: Seq<char>|
            spells_operands(line, push_word(), lead, segment, gap, text, val),
{
    lemma_operands_shape(push_word(), line, segment, val);
}

/// A line parses to a pop only where it spells one.
pub proof fn lemma_pop_shape(line: Seq<char>, segment: Segment, val: i32)
    requires
        parsed_line(line) == Ok::<Operation, ParseError>(Operation::Pop { segment, val }),
    ensures
        exists|lead: Seq<char>, gap: Seq<char>, text: Seq<char>|
            spells_operands(line, pop_word(), lead, segment, gap, text, val),
{
    lemma_operands_shape(pop_word(), line, segment, val);
}

/// The position that an error carries lies within the line, or at its end.
pub proof fn lemma_error_position(line: Seq<char>)
    requires
        line.len() <= usize::MAX,
    ensures
        parsed_line(line) matches Err(e) ==> e.position <= line.len(),
{
    let keyword = if push_word().is_prefix_of(line) {
        push_word()
    } else {
        pop_word()
    };
    if arithmetic_of(line) is None && keyword.is_prefix_of(line) {
        let after = line.skip(keyword.len() as int);
        let run = blank_run(after);
        lemma_blank_run_bounds(after);
        let body = after.skip(run as int);
        match segment_of(body) {
            Some(segment) => {
                assert(opens_with_segment(body, segment));
                let tail = body.skip(segment_word(segment).len() as int);
                lemma_blank_run_bounds(tail);
            },
            None => {},
        }
    }
}

/// A line that starts with none of the keywords is refused at its start.
pub proof fn lemma_unknown_keyword_refused(line: Seq<char>)
    requires
        forall|op: Arithmetic| !opens_with_arithmetic(line, op),
        !push_word().is_prefix_of(line),
        !pop_word().is_prefix_of(line),
    ensures
        parsed_line(line) == Err::<Operation, ParseError>(ParseError { position: 0 }),
{
}

} // verus!
