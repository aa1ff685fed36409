//! The grammar of a VM line, as functions from a text to what it parses to.
//!
//! ```text
//! operation := arith | push | pop
//! arith     := "add" | "sub" | "neg" | "eq" | "gt" | "lt" | "and" | "or" | "not"
//! push      := "push" blanks segment blanks integer
//! pop       := "pop"  blanks segment blanks integer
//! segment   := "constant" | "local" | "argument" | "this" | "that" | "pointer" | "static"
//! integer   := optional sign, decimal digits
//! blanks    := one or more spaces or tabs
//! ```
//!
//! A keyword matches where the text starts with it. An error carries the
//! position, counted in characters from the start of the text, of the first
//! token that did not match.

use super::integer::integer_of;
use super::scan::blank_run;
use super::Arithmetic;
use super::Operation;
use super::ParseError;
use super::Segment;
use vstd::prelude::*;

verus! {

/// The keyword of an arithmetic command.
pub open spec fn arithmetic_word(op: Arithmetic) -> Seq<char> {
    match op {
        Arithmetic::Add => "add"@,
        Arithmetic::Sub => "sub"@,
        Arithmetic::Neg => "neg"@,
        Arithmetic::Eq => "eq"@,
        Arithmetic::Gt => "gt"@,
        Arithmetic::Lt => "lt"@,
        Arithmetic::And => "and"@,
        Arithmetic::Or => "or"@,
        Arithmetic::Not => "not"@,
    }
}

/// The keyword of a memory segment.
pub open spec fn segment_word(segment: Segment) -> Seq<char> {
    match segment {
        Segment::Constant => "constant"@,
        Segment::Local => "local"@,
        Segment::Argument => "argument"@,
        Segment::This => "this"@,
        Segment::That => "that"@,
        Segment::Pointer => "pointer"@,
        Segment::Static => "static"@,
    }
}

/// The keyword that opens a push.
pub open spec fn push_word() -> Seq<char> {
    "push"@
}

/// The keyword that opens a pop.
pub open spec fn pop_word() -> Seq<char> {
    "pop"@
}

/// Whether `input` starts with the keyword of `op`.
pub open spec fn opens_with_arithmetic(input: Seq<char>, op: Arithmetic) -> bool {
    arithmetic_word(op).is_prefix_of(input)
}

/// Whether `input` starts with the keyword of `segment`.
pub open spec fn opens_with_segment(input: Seq<char>, segment: Segment) -> bool {
    segment_word(segment).is_prefix_of(input)
}

/// The arithmetic command whose keyword `input` starts with: the first one,
/// in the order of the grammar, that matches.
pub open spec fn arithmetic_of(input: Seq<char>) -> Option<Arithmetic> {
    if opens_with_arithmetic(input, Arithmetic::Add) {
        Some(Arithmetic::Add)
    } else if opens_with_arithmetic(input, Arithmetic::Sub) {
        Some(Arithmetic::Sub)
    } else if opens_with_arithmetic(input, Arithmetic::Neg) {
        Some(Arithmetic::Neg)
    } else if opens_with_arithmetic(input, Arithmetic::Eq) {
        Some(Arithmetic::Eq)
    } else if opens_with_arithmetic(input, Arithmetic::Gt) {
        Some(Arithmetic::Gt)
    } else if opens_with_arithmetic(input, Arithmetic::Lt) {
        Some(Arithmetic::Lt)
    } else if opens_with_arithmetic(input, Arithmetic::And) {
        Some(Arithmetic::And)
    } else if opens_with_arithmetic(input, Arithmetic::Or) {
        Some(Arithmetic::Or)
    } else if opens_with_arithmetic(input, Arithmetic::Not) {
        Some(Arithmetic::Not)
    } else {
        None
    }
}

/// The segment whose keyword `input` starts with: the first one, in the
/// order of the grammar, that matches.
pub open spec fn segment_of(input: Seq<char>) -> Option<Segment> {
    if opens_with_segment(input, Segment::Constant) {
        Some(Segment::Constant)
    } else if opens_with_segment(input, Segment::Local) {
        Some(Segment::Local)
    } else if opens_with_segment(input, Segment::Argument) {
        Some(Segment::Argument)
    } else if opens_with_segment(input, Segment::This) {
        Some(Segment::This)
    } else if opens_with_segment(input, Segment::That) {
        Some(Segment::That)
    } else if opens_with_segment(input, Segment::Pointer) {
        Some(Segment::Pointer)
    } else if opens_with_segment(input, Segment::Static) {
        Some(Segment::Static)
    } else {
        None
    }
}

/// An arithmetic command at the start of `input`, with the text that follows
/// its keyword. What follows is handed back unread.
pub open spec fn parsed_arithmetic(input: Seq<char>) -> Result<(Seq<char>, Operation), ParseError> {
    match arithmetic_of(input) {
        Some(op) => Ok((input.skip(arithmetic_word(op).len() as int), Operation::Arithmetic(op))),
        None => Err(ParseError { position: 0 }),
    }
}

/// A segment between two runs of blanks at the start of `input`, with the
/// text that follows the second run. Each run has at least one blank.
pub open spec fn parsed_segment(input: Seq<char>) -> Result<(Seq<char>, Segment), ParseError> {
    let lead = blank_run(input);
    let body = input.skip(lead as int);
    if lead == 0 {
        Err(ParseError { position: 0 })
    } else {
        match segment_of(body) {
            None => Err(ParseError { position: lead as usize }),
            Some(segment) => {
                let width = segment_word(segment).len();
                let tail = body.skip(width as int);
                let gap = blank_run(tail);
                if gap == 0 {
                    Err(ParseError { position: (lead + width) as usize })
                } else {
                    Ok((tail.skip(gap as int), segment))
                }
            },
        }
    }
}

/// The segment and the integer of a command that opens with `keyword`. The
/// integer takes up all that follows the segment and its blanks.
pub open spec fn parsed_operands(keyword: Seq<char>, input: Seq<char>) -> Result<
    (Segment, i32),
    ParseError,
> {
    if !keyword.is_prefix_of(input) {
        Err(ParseError { position: 0 })
    } else {
        match parsed_segment(input.skip(keyword.len() as int)) {
            Err(e) => Err(ParseError { position: (keyword.len() + e.position) as usize }),
            Ok((text, segment)) => match integer_of(text) {
                None => Err(ParseError { position: (input.len() - text.len()) as usize }),
                Some(val) => Ok((segment, val)),
            },
        }
    }
}

/// A push that takes up the whole of `input`; nothing is left over.
pub open spec fn parsed_push(input: Seq<char>) -> Result<(Seq<char>, Operation), ParseError> {
    match parsed_operands(push_word(), input) {
        Ok((segment, val)) => Ok((Seq::empty(), Operation::Push { segment, val })),
        Err(e) => Err(e),
    }
}

/// A pop that takes up the whole of `input`; nothing is left over.
pub open spec fn parsed_pop(input: Seq<char>) -> Result<(Seq<char>, Operation), ParseError> {
    match parsed_operands(pop_word(), input) {
        Ok((segment, val)) => Ok((Seq::empty(), Operation::Pop { segment, val })),
        Err(e) => Err(e),
    }
}

/// An operation at the start of `input`: an arithmetic command where one
/// matches, else a push where `input` starts with its keyword, else a pop.
pub open spec fn parsed_operation(input: Seq<char>) -> Result<(Seq<char>, Operation), ParseError> {
    if arithmetic_of(input) is Some {
        parsed_arithmetic(input)
    } else if push_word().is_prefix_of(input) {
        parsed_push(input)
    } else {
        parsed_pop(input)
    }
}

/// The operation that the line `line` holds.
pub open spec fn parsed_line(line: Seq<char>) -> Result<Operation, ParseError> {
    match parsed_operation(line) {
        Ok((_, operation)) => Ok(operation),
        Err(e) => Err(e),
    }
}

/// What a parser handed back, with the text that it left over by its
/// characters.
pub open spec fn outcome<'a, T>(result: Result<(&'a str, T), ParseError>) -> Result<
    (Seq<char>, T),
    ParseError,
> {
    match result {
        Ok((rest, value)) => Ok((rest@, value)),
        Err(e) => Err(e),
    }
}

} // verus!
