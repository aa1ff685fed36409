//! The line parser: one line of VM source in, one typed operation out.

pub mod grammar;
pub mod integer;
pub mod laws;
pub mod scan;

use grammar::arithmetic_of;
use grammar::arithmetic_word;
use grammar::outcome;
use grammar::parsed_arithmetic;
use grammar::parsed_line;
use grammar::parsed_operands;
use grammar::parsed_operation;
use grammar::parsed_pop;
use grammar::parsed_push;
use grammar::parsed_segment;
use grammar::segment_of;
use grammar::segment_word;
use integer::parse_integer;
use scan::leading_blanks;
use scan::skip_chars;
use scan::starts_with;
use vstd::prelude::*;

verus! {

/// The parser of VM source lines.
pub struct Parser;

/// The stack arithmetic and logic commands of the VM language.
#[derive(Debug, PartialEq, Eq, Clone, Copy, Structural)]
pub enum Arithmetic {
    Add,
    Sub,
    Neg,
    Eq,
    Gt,
    Lt,
    And,
    Or,
    Not,
}

/// The memory segments that `push` and `pop` address.
#[derive(Debug, PartialEq, Eq, Clone, Copy, Structural)]
pub enum Segment {
    Constant,
    Local,
    Argument,
    This,
    That,
    Pointer,
    Static,
}

/// One parsed VM instruction.
#[derive(Debug, PartialEq, Eq, Clone, Copy, Structural)]
pub enum Operation {
    Arithmetic(Arithmetic),
    Push { segment: Segment, val: i32 },
    Pop { segment: Segment, val: i32 },
}

/// A text that is no operation of the VM language.
#[derive(Debug, PartialEq, Eq, Clone, Copy, Structural)]
pub struct ParseError {
    /// Where the first token that did not match starts, counted in
    /// characters from the start of the text that was handed in.
    pub position: usize,
}

/// `nom::rest`, on a string slice: the parser that takes all of its input.
/// The contract claims that it always succeeds, that what it takes is the
/// input as it stands, and that what it leaves is the empty text.
#[verifier::external_body]
fn rest_of_input<'a>(input: &'a str) -> (taken: Option<(&'a str, &'a str)>)
    ensures
        taken is Some,
        taken.unwrap().0@ == Seq::<char>::empty(),
        taken.unwrap().1@ == input@,
{
    nom::rest(input).ok()
}

/// The keyword of an arithmetic command.
pub fn arithmetic_keyword(op: Arithmetic) -> (word: &'static str)
    ensures
        word@ == arithmetic_word(op),
{
    match op {
        Arithmetic::Add => "add",
        Arithmetic::Sub => "sub",
        Arithmetic::Neg => "neg",
        Arithmetic::Eq => "eq",
        Arithmetic::Gt => "gt",
        Arithmetic::Lt => "lt",
        Arithmetic::And => "and",
        Arithmetic::Or => "or",
        Arithmetic::Not => "not",
    }
}

/// The keyword of a memory segment.
pub fn segment_keyword(segment: Segment) -> (word: &'static str)
    ensures
        word@ == segment_word(segment),
{
    match segment {
        Segment::Constant => "constant",
        Segment::Local => "local",
        Segment::Argument => "argument",
        Segment::This => "this",
        Segment::That => "that",
        Segment::Pointer => "pointer",
        Segment::Static => "static",
    }
}

/// Finds the arithmetic command whose keyword `input` starts with.
pub fn recognize_arithmetic(input: &str) -> (found: Option<Arithmetic>)
    ensures
        found == arithmetic_of(input@),
{
    if starts_with(input, arithmetic_keyword(Arithmetic::Add)) {
        Some(Arithmetic::Add)
    } else if starts_with(input, arithmetic_keyword(Arithmetic::Sub)) {
        Some(Arithmetic::Sub)
    } else if starts_with(input, arithmetic_keyword(Arithmetic::Neg)) {
        Some(Arithmetic::Neg)
    } else if starts_with(input, arithmetic_keyword(Arithmetic::Eq)) {
        Some(Arithmetic::Eq)
    } else if starts_with(input, arithmetic_keyword(Arithmetic::Gt)) {
        Some(Arithmetic::Gt)
    } else if starts_with(input, arithmetic_keyword(Arithmetic::Lt)) {
        Some(Arithmetic::Lt)
    } else if starts_with(input, arithmetic_keyword(Arithmetic::And)) {
        Some(Arithmetic::And)
    } else if starts_with(input, arithmetic_keyword(Arithmetic::Or)) {
        Some(Arithmetic::Or)
    } else if starts_with(input, arithmetic_keyword(Arithmetic::Not)) {
        Some(Arithmetic::Not)
    } else {
        None
    }
}

/// Finds the segment whose keyword `input` starts with.
pub fn recognize_segment(input: &str) -> (found: Option<Segment>)
    ensures
        found == segment_of(input@),
{
    if starts_with(input, segment_keyword(Segment::Constant)) {
        Some(Segment::Constant)
    } else if starts_with(input, segment_keyword(Segment::Local)) {
        Some(Segment::Local)
    } else if starts_with(input, segment_keyword(Segment::Argument)) {
        Some(Segment::Argument)
    } else if starts_with(input, segment_keyword(Segment::This)) {
        Some(Segment::This)
    } else if starts_with(input, segment_keyword(Segment::That)) {
        Some(Segment::That)
    } else if starts_with(input, segment_keyword(Segment::Pointer)) {
        Some(Segment::Pointer)
    } else if starts_with(input, segment_keyword(Segment::Static)) {
        Some(Segment::Static)
    } else {
        None
    }
}

/// Parses an arithmetic command at the start of `input` and hands back the
/// text that follows its keyword.
pub fn parse_arithmetic_operation<'a>(input: &'a str) -> (result: Result<
    (&'a str, Operation),
    ParseError,
>)
    ensures
        outcome(result) == parsed_arithmetic(input@),
{
    match recognize_arithmetic(input) {
        Some(op) => {
            let width = arithmetic_keyword(op).unicode_len();
            Ok((skip_chars(input, width), Operation::Arithmetic(op)))
        },
        None => Err(ParseError { position: 0 }),
    }
}

/// Parses a segment that stands between two runs of blanks at the start of
/// `input`, and hands back the text that follows the second run.
pub fn parse_segment<'a>(input: &'a str) -> (result: Result<(&'a str, Segment), ParseError>)
    ensures
        outcome(result) == parsed_segment(input@),
        result matches Err(e) ==> e.position <= input@.len(),
        result matches Ok(found) ==> found.0@.len() <= input@.len(),
{
    let lead = leading_blanks(input);
    if lead == 0 {
        return Err(ParseError { position: 0 });
    }
    let body = skip_chars(input, lead);
    match recognize_segment(body) {
        None => Err(ParseError { position: lead }),
        Some(segment) => {
            let width = segment_keyword(segment).unicode_len();
            let tail = skip_chars(body, width);
            let gap = leading_blanks(tail);
            if gap == 0 {
                Err(ParseError { position: lead + width })
            } else {
                Ok((skip_chars(tail, gap), segment))
            }
        },
    }
}

/// Parses what a push and a pop share: `keyword`, a segment, and an integer
/// that takes up the rest of `input`. Hands back what is left of the input,
/// which is nothing.
pub fn parse_operands<'a>(keyword: &str, input: &'a str) -> (result: Result<
    (&'a str, Segment, i32),
    ParseError,
>)
    ensures
        match result {
            Ok((rest, segment, val)) => rest@ == Seq::<char>::empty() && parsed_operands(
                keyword@,
                input@,
            ) == Ok::<(Segment, i32), ParseError>((segment, val)),
            Err(e) => parsed_operands(keyword@, input@) == Err::<(Segment, i32), ParseError>(e),
        },
{
    if !starts_with(input, keyword) {
        return Err(ParseError { position: 0 });
    }
    let length = input.unicode_len();
    let width = keyword.unicode_len();
    match parse_segment(skip_chars(input, width)) {
        Err(e) => Err(ParseError { position: width + e.position }),
        Ok((after, segment)) => {
            let at = length - after.unicode_len();
            match rest_of_input(after) {
                Some((rest, text)) => match parse_integer(text) {
                    Some(val) => Ok((rest, segment, val)),
                    None => Err(ParseError { position: at }),
                },
                None => Err(ParseError { position: at }),
            }
        },
    }
}

/// Parses a push that takes up the whole of `input`.
pub fn parse_push_operation<'a>(input: &'a str) -> (result: Result<
    (&'a str, Operation),
    ParseError,
>)
    ensures
        outcome(result) == parsed_push(input@),
{
    match parse_operands("push", input) {
        Ok((rest, segment, val)) => Ok((rest, Operation::Push { segment, val })),
        Err(e) => Err(e),
    }
}

/// Parses a pop that takes up the whole of `input`.
pub fn parse_pop_operation<'a>(input: &'a str) -> (result: Result<
    (&'a str, Operation),
    ParseError,
>)
    ensures
        outcome(result) == parsed_pop(input@),
{
    match parse_operands("pop", input) {
        Ok((rest, segment, val)) => Ok((rest, Operation::Pop { segment, val })),
        Err(e) => Err(e),
    }
}

/// Parses an operation at the start of `input`: an arithmetic command, a
/// push or a pop, tried in this order.
pub fn parse_operation<'a>(input: &'a str) -> (result: Result<(&'a str, Operation), ParseError>)
    ensures
        outcome(result) == parsed_operation(input@),
{
    match parse_arithmetic_operation(input) {
        Ok(found) => Ok(found),
        Err(_) => {
            if starts_with(input, "push") {
                parse_push_operation(input)
            } else {
                parse_pop_operation(input)
            }
        },
    }
}

impl Parser {
    /// Parses one line of VM source.
    ///
    /// The line starts with its keyword. An arithmetic command is known by
    /// its keyword alone, and what follows the keyword is not read. A push or
    /// a pop takes up the whole line: the keyword, a segment and an integer,
    /// with one or more blanks between them.
    pub fn parse_line(line: &str) -> (result: Result<Operation, ParseError>)
        ensures
            result == parsed_line(line@),
    {
        match parse_operation(line) {
            Ok((_, operation)) => Ok(operation),
            Err(e) => Err(e),
        }
    }
}

} // verus!
