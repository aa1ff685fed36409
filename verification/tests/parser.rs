use vm_translator::parser::parse_arithmetic_operation;
use vm_translator::parser::parse_operation;
use vm_translator::parser::parse_pop_operation;
use vm_translator::parser::parse_push_operation;
use vm_translator::parser::parse_operands;
use vm_translator::parser::parse_segment;
use vm_translator::parser::recognize_arithmetic;
use vm_translator::parser::recognize_segment;
use vm_translator::parser::arithmetic_keyword;
use vm_translator::parser::segment_keyword;
use vm_translator::parser::Arithmetic;
use vm_translator::parser::Operation;
use vm_translator::parser::ParseError;
use vm_translator::parser::Parser;
use vm_translator::parser::Segment;

const ARITHMETIC: [(&str, Arithmetic); 9] = [
    ("add", Arithmetic::Add),
    ("sub", Arithmetic::Sub),
    ("neg", Arithmetic::Neg),
    ("eq", Arithmetic::Eq),
    ("gt", Arithmetic::Gt),
    ("lt", Arithmetic::Lt),
    ("and", Arithmetic::And),
    ("or", Arithmetic::Or),
    ("not", Arithmetic::Not),
];

const SEGMENTS: [(&str, Segment); 7] = [
    ("constant", Segment::Constant),
    ("local", Segment::Local),
    ("argument", Segment::Argument),
    ("this", Segment::This),
    ("that", Segment::That),
    ("pointer", Segment::Pointer),
    ("static", Segment::Static),
];

const VALUES: [i32; 9] = [0, 1, 7, 42, -1, -42, 32767, i32::MAX, i32::MIN];

fn refused_at(position: usize) -> Result<Operation, ParseError> {
    Err(ParseError { position })
}

#[test]
fn arithmetic_operation() {
    let expected_operation = Operation::Arithmetic(Arithmetic::Add);

    let operation = parse_arithmetic_operation("add");
    let (_, operation) = operation.unwrap();

    assert_eq!(operation, expected_operation);
}

#[test]
fn push_operation() {
    let expected_operation = Operation::Push {
        segment: Segment::This,
        val: 42,
    };

    let operation = parse_push_operation("push this 42");
    let (_, operation) = operation.unwrap();

    assert_eq!(operation, expected_operation);
}

#[test]
fn pop_operation() {
    let expected_operation = Operation::Pop {
        segment: Segment::Local,
        val: 42,
    };

    let operation = parse_pop_operation("pop local 42");
    let (_, operation) = operation.unwrap();

    assert_eq!(operation, expected_operation);
}

#[test]
fn parse_any_operation() {
    let expected_operation = Operation::Push {
        segment: Segment::Pointer,
        val: 3,
    };

    let operation = parse_operation("push pointer 3");
    let (_, operation) = operation.unwrap();

    assert_eq!(operation, expected_operation);
}

#[test]
fn every_arithmetic_keyword_parses_to_its_command() {
    for (word, op) in ARITHMETIC {
        assert_eq!(Parser::parse_line(word), Ok(Operation::Arithmetic(op)));
        assert_eq!(arithmetic_keyword(op), word);
        assert_eq!(recognize_arithmetic(word), Some(op));
    }
}

#[test]
fn arithmetic_keyword_leaves_what_follows_unread() {
    assert_eq!(
        parse_arithmetic_operation("add rest"),
        Ok((" rest", Operation::Arithmetic(Arithmetic::Add)))
    );
    assert_eq!(
        parse_arithmetic_operation("or"),
        Ok(("", Operation::Arithmetic(Arithmetic::Or)))
    );
    assert_eq!(
        parse_operation("notx"),
        Ok(("x", Operation::Arithmetic(Arithmetic::Not)))
    );
    assert_eq!(
        Parser::parse_line("subtract"),
        Ok(Operation::Arithmetic(Arithmetic::Sub))
    );
}

#[test]
fn arithmetic_parser_refuses_other_keywords() {
    assert_eq!(
        parse_arithmetic_operation("push this 42"),
        Err(ParseError { position: 0 })
    );
    assert_eq!(parse_arithmetic_operation(""), Err(ParseError { position: 0 }));
    assert_eq!(parse_arithmetic_operation("ad"), Err(ParseError { position: 0 }));
    assert_eq!(recognize_arithmetic("Add"), None);
}

#[test]
fn every_segment_and_integer_pushes() {
    for (word, segment) in SEGMENTS {
        for val in VALUES {
            let line = format!("push {} {}", word, val);
            assert_eq!(
                Parser::parse_line(&line),
                Ok(Operation::Push { segment, val })
            );
        }
    }
}

#[test]
fn every_segment_and_integer_pops() {
    for (word, segment) in SEGMENTS {
        for val in VALUES {
            let line = format!("pop {} {}", word, val);
            assert_eq!(
                Parser::parse_line(&line),
                Ok(Operation::Pop { segment, val })
            );
        }
    }
}

#[test]
fn segment_keywords_are_recognized() {
    for (word, segment) in SEGMENTS {
        assert_eq!(segment_keyword(segment), word);
        assert_eq!(recognize_segment(word), Some(segment));
    }
    assert_eq!(recognize_segment("thus"), None);
    assert_eq!(recognize_segment(""), None);
    assert_eq!(recognize_segment("thisx"), Some(Segment::This));
}

#[test]
fn extra_inner_whitespace_is_tolerated() {
    assert_eq!(
        Parser::parse_line("push   this   42"),
        Parser::parse_line("push this 42")
    );
    assert_eq!(
        Parser::parse_line("push   this   42"),
        Ok(Operation::Push {
            segment: Segment::This,
            val: 42
        })
    );
    assert_eq!(
        Parser::parse_line("pop\t \tstatic \t-5"),
        Ok(Operation::Pop {
            segment: Segment::Static,
            val: -5
        })
    );
}

#[test]
fn push_leaves_nothing_over() {
    assert_eq!(
        parse_push_operation("push this 42"),
        Ok((
            "",
            Operation::Push {
                segment: Segment::This,
                val: 42
            }
        ))
    );
    assert_eq!(
        parse_pop_operation("pop that 0"),
        Ok((
            "",
            Operation::Pop {
                segment: Segment::That,
                val: 0
            }
        ))
    );
    assert_eq!(
        parse_operands("push", "push argument 12"),
        Ok(("", Segment::Argument, 12))
    );
}

#[test]
fn unknown_leading_keyword_is_refused() {
    assert_eq!(Parser::parse_line("label LOOP"), refused_at(0));
    assert_eq!(Parser::parse_line("goto END"), refused_at(0));
    assert_eq!(Parser::parse_line("foo"), refused_at(0));
    assert_eq!(Parser::parse_line(""), refused_at(0));
    assert_eq!(Parser::parse_line("ADD"), refused_at(0));
    assert_eq!(Parser::parse_line("pus this 1"), refused_at(0));
    assert_eq!(Parser::parse_line("42"), refused_at(0));
}

#[test]
fn leading_blank_is_no_keyword() {
    assert_eq!(Parser::parse_line(" add"), refused_at(0));
    assert_eq!(Parser::parse_line("\tpush this 1"), refused_at(0));
}

#[test]
fn missing_segment_is_refused() {
    assert_eq!(Parser::parse_line("push"), refused_at(4));
    assert_eq!(Parser::parse_line("pop"), refused_at(3));
    assert_eq!(Parser::parse_line("push "), refused_at(5));
    assert_eq!(Parser::parse_line("pop   "), refused_at(6));
    assert_eq!(Parser::parse_line("push 42"), refused_at(5));
}

#[test]
fn missing_blank_after_keyword_is_refused() {
    assert_eq!(Parser::parse_line("pushthis 42"), refused_at(4));
    assert_eq!(Parser::parse_line("poplocal 42"), refused_at(3));
}

#[test]
fn unknown_segment_is_refused() {
    assert_eq!(Parser::parse_line("push heap 1"), refused_at(5));
    assert_eq!(Parser::parse_line("pop   temp 1"), refused_at(6));
    assert_eq!(Parser::parse_line("push This 1"), refused_at(5));
}

#[test]
fn missing_integer_is_refused() {
    assert_eq!(Parser::parse_line("push this"), refused_at(9));
    assert_eq!(Parser::parse_line("push this "), refused_at(10));
    assert_eq!(Parser::parse_line("pop local  "), refused_at(11));
    assert_eq!(Parser::parse_line("push this42"), refused_at(9));
}

#[test]
fn integer_that_fails_conversion_is_refused() {
    assert_eq!(Parser::parse_line("push this x"), refused_at(10));
    assert_eq!(Parser::parse_line("push this 42 "), refused_at(10));
    assert_eq!(Parser::parse_line("push this 4 2"), refused_at(10));
    assert_eq!(Parser::parse_line("push this 42x"), refused_at(10));
    assert_eq!(Parser::parse_line("push this -"), refused_at(10));
    assert_eq!(Parser::parse_line("push this +"), refused_at(10));
    assert_eq!(Parser::parse_line("push this --1"), refused_at(10));
    assert_eq!(Parser::parse_line("push this 1.5"), refused_at(10));
    assert_eq!(Parser::parse_line("pop local 0x10"), refused_at(10));
}

#[test]
fn integer_outside_32_bits_is_refused() {
    assert_eq!(Parser::parse_line("push constant 2147483648"), refused_at(14));
    assert_eq!(Parser::parse_line("push constant -2147483649"), refused_at(14));
    assert_eq!(
        Parser::parse_line("push constant 99999999999999999999999999"),
        refused_at(14)
    );
    assert_eq!(
        Parser::parse_line("push constant 2147483647"),
        Ok(Operation::Push {
            segment: Segment::Constant,
            val: 2147483647
        })
    );
    assert_eq!(
        Parser::parse_line("push constant -2147483648"),
        Ok(Operation::Push {
            segment: Segment::Constant,
            val: -2147483648
        })
    );
}

#[test]
fn negative_and_signed_integers_are_taken() {
    assert_eq!(
        Parser::parse_line("push constant -7"),
        Ok(Operation::Push {
            segment: Segment::Constant,
            val: -7
        })
    );
    assert_eq!(
        Parser::parse_line("pop argument +7"),
        Ok(Operation::Pop {
            segment: Segment::Argument,
            val: 7
        })
    );
    assert_eq!(
        Parser::parse_line("push constant 007"),
        Ok(Operation::Push {
            segment: Segment::Constant,
            val: 7
        })
    );
}

#[test]
fn segment_stands_between_blanks() {
    assert_eq!(parse_segment(" this 42"), Ok(("42", Segment::This)));
    assert_eq!(parse_segment("\t\tlocal \t"), Ok(("", Segment::Local)));
    assert_eq!(parse_segment("this 42"), Err(ParseError { position: 0 }));
    assert_eq!(parse_segment(""), Err(ParseError { position: 0 }));
    assert_eq!(parse_segment("  what 1"), Err(ParseError { position: 2 }));
    assert_eq!(parse_segment("  that"), Err(ParseError { position: 6 }));
    assert_eq!(parse_segment(" thatx 1"), Err(ParseError { position: 5 }));
}

#[test]
fn operands_follow_their_keyword() {
    assert_eq!(
        parse_operands("pop", "push this 1"),
        Err(ParseError { position: 0 })
    );
    assert_eq!(
        parse_operands("pop", "pop pointer 1"),
        Ok(("", Segment::Pointer, 1))
    );
    assert_eq!(
        parse_operands("push", "push pointer one"),
        Err(ParseError { position: 13 })
    );
}

#[test]
fn positions_count_characters() {
    assert_eq!(Parser::parse_line("push thi\u{e9} 1"), refused_at(5));
    assert_eq!(Parser::parse_line("push this \u{e9}"), refused_at(10));
    assert_eq!(Parser::parse_line("push\u{a0}this 1"), refused_at(4));
}

#[test]
fn any_operation_tries_arithmetic_push_and_pop() {
    assert_eq!(
        parse_operation("and"),
        Ok(("", Operation::Arithmetic(Arithmetic::And)))
    );
    assert_eq!(
        parse_operation("pop static 8"),
        Ok((
            "",
            Operation::Pop {
                segment: Segment::Static,
                val: 8
            }
        ))
    );
    assert_eq!(parse_operation("push static"), Err(ParseError { position: 11 }));
    assert_eq!(parse_operation("return"), Err(ParseError { position: 0 }));
}
