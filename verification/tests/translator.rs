use vm_translator::parser::Arithmetic;
use vm_translator::parser::Operation;
use vm_translator::parser::Parser;
use vm_translator::parser::Segment;
use vm_translator::translator::combine_instruction;
use vm_translator::translator::Translator;
use vm_translator::translator::UnsupportedOperation;

const PREAMBLE: [&str; 4] = ["@SP", "AM=M-1", "D=M", "A=A-1"];

fn block(last: &'static str) -> Vec<&'static str> {
    let mut lines = PREAMBLE.to_vec();
    lines.push(last);
    lines
}

fn arithmetic(op: Arithmetic) -> Operation {
    Operation::Arithmetic(op)
}

#[test]
fn empty_input_yields_empty_output() {
    assert_eq!(Translator::translate(&[]), Ok(Vec::new()));
}

#[test]
fn each_supported_operation_emits_five_lines() {
    let table = [
        (Arithmetic::Add, "M=M+D"),
        (Arithmetic::Sub, "M=M-D"),
        (Arithmetic::And, "M=M&D"),
        (Arithmetic::Or, "M=M|D"),
    ];
    for (op, last) in table {
        let lines = Translator::translate(&[arithmetic(op)]).unwrap();
        assert_eq!(lines.len(), 5);
        assert_eq!(lines, block(last));
        assert_eq!(combine_instruction(op), Some(last));
    }
}

#[test]
fn other_arithmetic_commands_have_no_combining_line() {
    let others = [
        Arithmetic::Neg,
        Arithmetic::Eq,
        Arithmetic::Gt,
        Arithmetic::Lt,
        Arithmetic::Not,
    ];
    for op in others {
        assert_eq!(combine_instruction(op), None);
        assert_eq!(
            Translator::translate(&[arithmetic(op)]),
            Err(UnsupportedOperation { index: 0 })
        );
    }
}

#[test]
fn translation_of_a_concatenation_is_the_concatenation() {
    let first = [arithmetic(Arithmetic::Add), arithmetic(Arithmetic::Or)];
    let second = [
        arithmetic(Arithmetic::Sub),
        arithmetic(Arithmetic::And),
        arithmetic(Arithmetic::Add),
    ];
    let mut whole = first.to_vec();
    whole.extend_from_slice(&second);

    let mut expected = Translator::translate(&first).unwrap();
    expected.extend(Translator::translate(&second).unwrap());

    let lines = Translator::translate(&whole).unwrap();
    assert_eq!(lines, expected);
    assert_eq!(lines.len(), 25);
    assert_eq!(lines[4], "M=M+D");
    assert_eq!(lines[9], "M=M|D");
    assert_eq!(lines[14], "M=M-D");
    assert_eq!(lines[19], "M=M&D");
    assert_eq!(lines[24], "M=M+D");
}

#[test]
fn translation_is_deterministic() {
    let ops = [
        arithmetic(Arithmetic::And),
        arithmetic(Arithmetic::Sub),
        arithmetic(Arithmetic::Or),
    ];
    assert_eq!(Translator::translate(&ops), Translator::translate(&ops));
    let unsupported = [arithmetic(Arithmetic::And), arithmetic(Arithmetic::Lt)];
    assert_eq!(
        Translator::translate(&unsupported),
        Translator::translate(&unsupported)
    );
}

#[test]
fn first_unsupported_operation_is_named() {
    let ops = [
        arithmetic(Arithmetic::Add),
        arithmetic(Arithmetic::Sub),
        arithmetic(Arithmetic::Neg),
        Operation::Push {
            segment: Segment::Constant,
            val: 1,
        },
    ];
    assert_eq!(
        Translator::translate(&ops),
        Err(UnsupportedOperation { index: 2 })
    );
    let ops = [
        Operation::Pop {
            segment: Segment::Local,
            val: 0,
        },
        arithmetic(Arithmetic::Add),
    ];
    assert_eq!(
        Translator::translate(&ops),
        Err(UnsupportedOperation { index: 0 })
    );
}

#[test]
fn template_appends_the_preamble() {
    let mut lines: Vec<&'static str> = Vec::new();
    Translator::arithmetic_calculation_template(&mut lines);
    assert_eq!(lines, PREAMBLE.to_vec());

    let mut lines: Vec<&'static str> = vec!["M=M+D"];
    Translator::arithmetic_calculation_template(&mut lines);
    assert_eq!(lines, vec!["M=M+D", "@SP", "AM=M-1", "D=M", "A=A-1"]);
}

#[test]
fn add_line_translates_to_its_five_lines() {
    let operation = Parser::parse_line("add").unwrap();
    assert_eq!(operation, arithmetic(Arithmetic::Add));
    assert_eq!(
        Translator::translate(&[operation]),
        Ok(vec!["@SP", "AM=M-1", "D=M", "A=A-1", "M=M+D"])
    );
}

#[test]
fn sub_line_ends_in_its_combining_line() {
    let operation = Parser::parse_line("sub").unwrap();
    let lines = Translator::translate(&[operation]).unwrap();
    assert_eq!(lines[..4], PREAMBLE);
    assert_eq!(lines.last(), Some(&"M=M-D"));
    assert_eq!(lines.len(), 5);
}

#[test]
fn and_line_ends_in_its_combining_line() {
    let operation = Parser::parse_line("and").unwrap();
    let lines = Translator::translate(&[operation]).unwrap();
    assert_eq!(lines[..4], PREAMBLE);
    assert_eq!(lines.last(), Some(&"M=M&D"));
    assert_eq!(lines.len(), 5);
}

#[test]
fn or_line_ends_in_its_combining_line() {
    let operation = Parser::parse_line("or").unwrap();
    let lines = Translator::translate(&[operation]).unwrap();
    assert_eq!(lines[..4], PREAMBLE);
    assert_eq!(lines.last(), Some(&"M=M|D"));
    assert_eq!(lines.len(), 5);
}

#[test]
fn push_line_is_parsed_and_not_lowered() {
    let operation = Parser::parse_line("push this 42").unwrap();
    assert_eq!(
        operation,
        Operation::Push {
            segment: Segment::This,
            val: 42
        }
    );
    assert_eq!(
        Translator::translate(&[operation]),
        Err(UnsupportedOperation { index: 0 })
    );
}

#[test]
fn pop_line_is_parsed_and_not_lowered() {
    let operation = Parser::parse_line("pop local 42").unwrap();
    assert_eq!(
        operation,
        Operation::Pop {
            segment: Segment::Local,
            val: 42
        }
    );
    assert_eq!(
        Translator::translate(&[operation]),
        Err(UnsupportedOperation { index: 0 })
    );
}

#[test]
fn two_adds_repeat_the_block() {
    let operations = [
        Parser::parse_line("add").unwrap(),
        Parser::parse_line("add").unwrap(),
    ];
    let lines = Translator::translate(&operations).unwrap();
    assert_eq!(lines.len(), 10);
    assert_eq!(
        lines,
        vec![
            "@SP", "AM=M-1", "D=M", "A=A-1", "M=M+D", "@SP", "AM=M-1", "D=M", "A=A-1", "M=M+D",
        ]
    );
}

#[test]
fn emitted_lines_hold_no_line_break() {
    let ops = [
        arithmetic(Arithmetic::Add),
        arithmetic(Arithmetic::Sub),
        arithmetic(Arithmetic::And),
        arithmetic(Arithmetic::Or),
    ];
    for line in Translator::translate(&ops).unwrap() {
        assert!(!line.contains('\n'));
        assert!(!line.contains(' '));
    }
}
