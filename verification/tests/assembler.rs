use iridium::assembler::parser::directive::{parse_directive, parse_directive_declaration};
use iridium::assembler::parser::instruction::{
    parse_instruction, parse_instruction_combined, parse_operand_list, AssemblerInstruction,
};
use iridium::assembler::parser::integer_operand::{parse_integer_operand, parse_operand};
use iridium::assembler::parser::label::{parse_label_declaration, parse_label_usage};
use iridium::assembler::parser::opcode::parse_opcode;
use iridium::assembler::parser::program::{parse_program, Program};
use iridium::assembler::parser::register::parse_register;
use iridium::assembler::scan::{decimal, skip_whitespace, strip_char, take_run, CharClass};
use iridium::assembler::{assemble, AssemblerError, Token};
use iridium::instruction::Opcode;
use iridium::vm::VM;

fn parse_error(residual: &str) -> AssemblerError {
    AssemblerError::ParseError { residual: residual.to_string() }
}

fn opcode_instruction(
    code: Opcode,
    operand1: Option<Token>,
    operand2: Option<Token>,
    operand3: Option<Token>,
) -> AssemblerInstruction {
    AssemblerInstruction {
        opcode: Some(Token::Op { code }),
        label: None,
        directive: None,
        operand1,
        operand2,
        operand3,
    }
}

#[test]
fn test_parse_instruction_one() {
    let result = parse_instruction_combined("load $0 #100\n");
    assert_eq!(
        result,
        Ok((
            "",
            AssemblerInstruction {
                opcode: Some(Token::Op { code: Opcode::LOAD }),
                operand1: Some(Token::Register { reg_num: 0 }),
                operand2: Some(Token::IntegerOperand { value: 100 }),
                operand3: None,
                label: None,
                directive: None
            }
        ))
    );
}

#[test]
fn test_parse_instruction_two() {
    let result = parse_instruction_combined("hlt");
    assert_eq!(
        result,
        Ok((
            "",
            AssemblerInstruction {
                opcode: Some(Token::Op { code: Opcode::HLT }),
                operand1: None,
                operand2: None,
                operand3: None,
                label: None,
                directive: None
            }
        ))
    )
}

#[test]
fn test_parse_integer_operand() {
    let result = parse_integer_operand("#10");
    assert_eq!(result.is_ok(), true);
    let (rest, value) = result.unwrap();
    assert_eq!(rest, "");
    assert_eq!(value, Token::IntegerOperand { value: 10 });

    let result = parse_integer_operand("10");
    assert_eq!(result.is_ok(), false);
}

#[test]
fn test_parse_label_declaration() {
    let result = parse_label_declaration("test:");
    assert_eq!(result.is_ok(), true);
    let (_, token) = result.unwrap();
    assert_eq!(
        token,
        Token::LabelDeclaration {
            name: "test".to_string()
        }
    );
    let result = parse_label_declaration("test");
    assert_eq!(result.is_err(), true);
}

#[test]
fn test_parse_opcode() {
    let result = parse_opcode("load");
    assert_eq!(result.is_ok(), true);
    let (rest, token) = result.unwrap();
    assert_eq!(token, Token::Op { code: Opcode::LOAD });
    assert_eq!(rest, "");

    let result = parse_opcode("loda");
    let (_, token) = result.unwrap();
    assert_eq!(
        token,
        Token::Op {
            code: Opcode::IGL(0xFF)
        }
    )
}

#[test]
fn test_parse_register() {
    let result = parse_register("$0");
    assert_eq!(result.is_ok(), true);
    let result = parse_register("0");
    assert_eq!(result.is_ok(), false);
    let result = parse_register("$a");
    assert_eq!(result.is_ok(), false);
}

#[test]
fn runs_are_the_longest_prefix_of_their_class() {
    assert_eq!(take_run("load $0", CharClass::Alphabetic), Some((" $0", "load")));
    assert_eq!(take_run("load1", CharClass::Alphabetic), Some(("1", "load")));
    assert_eq!(take_run("1load", CharClass::Alphabetic), None);
    assert_eq!(take_run("", CharClass::Alphabetic), None);
    assert_eq!(take_run("ab", CharClass::Alphabetic), Some(("", "ab")));
    assert_eq!(take_run("\u{e9}t\u{e9} x", CharClass::Alphabetic), Some((" x", "\u{e9}t\u{e9}")));
    assert_eq!(take_run("123abc", CharClass::Digit), Some(("abc", "123")));
    assert_eq!(take_run("abc", CharClass::Digit), None);
    assert_eq!(take_run("\u{663}4", CharClass::Digit), None);
    assert_eq!(take_run("a1b2: x", CharClass::Alphanumeric), Some((": x", "a1b2")));
    assert_eq!(take_run(":a", CharClass::Alphanumeric), None);
    assert_eq!(take_run(" \t\r\nx ", CharClass::Whitespace), Some(("x ", " \t\r\n")));
    assert_eq!(take_run("x ", CharClass::Whitespace), None);
    assert_eq!(take_run("\u{a0}x", CharClass::Whitespace), None);
}

#[test]
fn whitespace_is_skipped_up_to_the_first_other_character() {
    assert_eq!(skip_whitespace("  \n\thlt \n"), "hlt \n");
    assert_eq!(skip_whitespace("hlt"), "hlt");
    assert_eq!(skip_whitespace(" \r\n"), "");
    assert_eq!(skip_whitespace(""), "");
}

#[test]
fn a_marker_is_stripped_only_where_it_stands() {
    assert_eq!(strip_char("$12", '$'), Some("12"));
    assert_eq!(strip_char("$", '$'), Some(""));
    assert_eq!(strip_char("#12", '$'), None);
    assert_eq!(strip_char("", '$'), None);
    assert_eq!(strip_char("\u{e9}a", '\u{e9}'), Some("a"));
}

#[test]
fn decimal_numbers_have_their_value_up_to_the_limit() {
    assert_eq!(decimal("0", 255), Some(0));
    assert_eq!(decimal("255", 255), Some(255));
    assert_eq!(decimal("256", 255), None);
    assert_eq!(decimal("007", 255), Some(7));
    assert_eq!(decimal("2147483647", 0x7FFF_FFFF), Some(2147483647));
    assert_eq!(decimal("2147483648", 0x7FFF_FFFF), None);
    assert_eq!(decimal("4294967295", u32::MAX), Some(u32::MAX));
    assert_eq!(decimal("4294967296", u32::MAX), None);
    assert_eq!(decimal("99999999999999999999999999", u32::MAX), None);
    assert_eq!(decimal("", 255), None);
    assert_eq!(decimal("1a", 255), None);
    assert_eq!(decimal("-1", 255), None);
    assert_eq!(decimal("+1", 255), None);
    assert_eq!(decimal(" 1", 255), None);
}

#[test]
fn register_numbers_fit_in_a_byte() {
    assert_eq!(parse_register("$255"), Ok(("", Token::Register { reg_num: 255 })));
    assert_eq!(parse_register("$256"), Err(parse_error("$256")));
    assert_eq!(parse_register("$31 $2"), Ok((" $2", Token::Register { reg_num: 31 })));
    assert_eq!(parse_register("$"), Err(parse_error("$")));
    assert_eq!(parse_register("$ 1"), Err(parse_error("$ 1")));
    assert_eq!(parse_register(" $1"), Err(parse_error(" $1")));
    assert_eq!(parse_register(""), Err(parse_error("")));
}

#[test]
fn integer_operands_fit_in_32_bits() {
    assert_eq!(
        parse_integer_operand("#2147483647"),
        Ok(("", Token::IntegerOperand { value: i32::MAX }))
    );
    assert_eq!(parse_integer_operand("#2147483648"), Err(parse_error("#2147483648")));
    assert_eq!(parse_integer_operand("#-1"), Err(parse_error("#-1")));
    assert_eq!(parse_integer_operand("#12ab"), Ok(("ab", Token::IntegerOperand { value: 12 })));
}

#[test]
fn an_operand_is_an_integer_or_a_register() {
    assert_eq!(parse_operand("#5"), Ok(("", Token::IntegerOperand { value: 5 })));
    assert_eq!(parse_operand("$5"), Ok(("", Token::Register { reg_num: 5 })));
    assert_eq!(parse_operand("@five"), Err(parse_error("@five")));
    assert_eq!(parse_operand("five"), Err(parse_error("five")));
}

#[test]
fn labels_are_declared_and_used() {
    assert_eq!(
        parse_label_declaration("loop1:  \n add"),
        Ok(("add", Token::LabelDeclaration { name: "loop1".to_string() }))
    );
    assert_eq!(parse_label_declaration(":"), Err(parse_error(":")));
    assert_eq!(parse_label_declaration("a :"), Err(parse_error("a :")));
    assert_eq!(
        parse_label_usage("@loop1 x"),
        Ok((" x", Token::LabelUsage { name: "loop1".to_string() }))
    );
    assert_eq!(parse_label_usage("loop1"), Err(parse_error("loop1")));
    assert_eq!(parse_label_usage("@"), Err(parse_error("@")));
}

#[test]
fn opcodes_are_alphabetic_runs() {
    assert_eq!(parse_opcode("jeq $1"), Ok((" $1", Token::Op { code: Opcode::JEQ })));
    assert_eq!(parse_opcode("add1"), Ok(("1", Token::Op { code: Opcode::ADD })));
    assert_eq!(parse_opcode(" add"), Err(parse_error(" add")));
    assert_eq!(parse_opcode("1"), Err(parse_error("1")));
    assert_eq!(parse_opcode(""), Err(parse_error("")));
}

#[test]
fn directives_start_with_a_dot() {
    assert_eq!(
        parse_directive_declaration(".data 1"),
        Ok((" 1", Token::Directive { name: "data".to_string() }))
    );
    assert_eq!(parse_directive_declaration("data"), Err(parse_error("data")));
    assert_eq!(parse_directive_declaration(".1"), Err(parse_error(".1")));
    assert_eq!(
        parse_directive(".word #1 #2 #3 #4"),
        Ok((
            "#4",
            AssemblerInstruction {
                opcode: None,
                label: None,
                directive: Some(Token::Directive { name: "word".to_string() }),
                operand1: Some(Token::IntegerOperand { value: 1 }),
                operand2: Some(Token::IntegerOperand { value: 2 }),
                operand3: Some(Token::IntegerOperand { value: 3 }),
            }
        ))
    );
    assert_eq!(
        parse_directive(".text $1"),
        Ok((
            "$1",
            AssemblerInstruction {
                opcode: None,
                label: None,
                directive: Some(Token::Directive { name: "text".to_string() }),
                operand1: None,
                operand2: None,
                operand3: None,
            }
        ))
    );
}

#[test]
fn operand_lists_hold_up_to_three_operands() {
    assert_eq!(parse_operand_list("  hlt", false), (None, None, None, "hlt"));
    assert_eq!(
        parse_operand_list(" $1 #2\n$3 $4", false),
        (
            Some(Token::Register { reg_num: 1 }),
            Some(Token::IntegerOperand { value: 2 }),
            Some(Token::Register { reg_num: 3 }),
            "$4"
        )
    );
    assert_eq!(
        parse_operand_list("#1 $2", true),
        (Some(Token::IntegerOperand { value: 1 }), None, None, "$2")
    );
    assert_eq!(
        parse_operand_list("$1$2", false),
        (Some(Token::Register { reg_num: 1 }), Some(Token::Register { reg_num: 2 }), None, "")
    );
}

#[test]
fn instructions_take_a_label_and_any_mix_of_operands() {
    assert_eq!(
        parse_instruction("start: add #1 $2 #3 \n hlt"),
        Ok((
            "hlt",
            AssemblerInstruction {
                opcode: Some(Token::Op { code: Opcode::ADD }),
                label: Some(Token::LabelDeclaration { name: "start".to_string() }),
                directive: None,
                operand1: Some(Token::IntegerOperand { value: 1 }),
                operand2: Some(Token::Register { reg_num: 2 }),
                operand3: Some(Token::IntegerOperand { value: 3 }),
            }
        ))
    );
    assert_eq!(
        parse_instruction(".data"),
        Ok((
            "",
            AssemblerInstruction {
                opcode: None,
                label: None,
                directive: Some(Token::Directive { name: "data".to_string() }),
                operand1: None,
                operand2: None,
                operand3: None,
            }
        ))
    );
    assert_eq!(parse_instruction("start: $1"), Err(parse_error("start: $1")));
    assert_eq!(parse_instruction("$1"), Err(parse_error("$1")));
    assert_eq!(parse_instruction(" hlt"), Err(parse_error(" hlt")));
    assert_eq!(parse_instruction_combined(".data"), Err(parse_error(".data")));
}

#[test]
fn register_is_one_byte_and_integer_two_high_byte_first() {
    let load = opcode_instruction(
        Opcode::LOAD,
        Some(Token::Register { reg_num: 0 }),
        Some(Token::IntegerOperand { value: 500 }),
        None,
    );
    assert_eq!(load.to_bytes(), Ok(vec![0x01, 0x00, 0x01, 0xF4]));
    let add = opcode_instruction(
        Opcode::ADD,
        Some(Token::Register { reg_num: 0 }),
        Some(Token::Register { reg_num: 1 }),
        Some(Token::Register { reg_num: 2 }),
    );
    assert_eq!(add.to_bytes(), Ok(vec![0x02, 0x00, 0x01, 0x02]));
    let hlt = opcode_instruction(Opcode::HLT, None, None, None);
    assert_eq!(hlt.to_bytes(), Ok(vec![0x00]));
    let wide = opcode_instruction(
        Opcode::IGL(0xFF),
        Some(Token::IntegerOperand { value: 1 }),
        Some(Token::IntegerOperand { value: 2 }),
        Some(Token::IntegerOperand { value: 3 }),
    );
    assert_eq!(wide.to_bytes(), Ok(vec![0xFF, 0x00, 0x01, 0x00, 0x02, 0x00, 0x03]));
}

#[test]
fn integers_are_truncated_to_sixteen_bits() {
    let bytes_of = |value: i32| {
        opcode_instruction(Opcode::JMP, Some(Token::IntegerOperand { value }), None, None)
            .to_bytes()
    };
    assert_eq!(bytes_of(0), Ok(vec![0x06, 0x00, 0x00]));
    assert_eq!(bytes_of(65535), Ok(vec![0x06, 0xFF, 0xFF]));
    assert_eq!(bytes_of(65536), Ok(vec![0x06, 0x00, 0x00]));
    assert_eq!(bytes_of(0x12345), Ok(vec![0x06, 0x23, 0x45]));
    assert_eq!(bytes_of(-1), Ok(vec![0x06, 0xFF, 0xFF]));
    assert_eq!(bytes_of(-2), Ok(vec![0x06, 0xFF, 0xFE]));
    assert_eq!(bytes_of(i32::MIN), Ok(vec![0x06, 0x00, 0x00]));
    assert_eq!(bytes_of(i32::MAX), Ok(vec![0x06, 0xFF, 0xFF]));
    assert_eq!(bytes_of(-65536), Ok(vec![0x06, 0x00, 0x00]));
    assert_eq!(bytes_of(-32768), Ok(vec![0x06, 0x80, 0x00]));
}

#[test]
fn absent_operands_emit_nothing_even_before_present_ones() {
    let gap = opcode_instruction(Opcode::JMP, None, Some(Token::Register { reg_num: 9 }), None);
    assert_eq!(gap.to_bytes(), Ok(vec![0x06, 0x09]));
}

#[test]
fn instructions_without_bytes_are_malformed() {
    let directive = AssemblerInstruction {
        opcode: None,
        label: None,
        directive: Some(Token::Directive { name: "data".to_string() }),
        operand1: None,
        operand2: None,
        operand3: None,
    };
    assert_eq!(directive.to_bytes(), Err(AssemblerError::MalformedInstruction));
    let register_as_opcode = AssemblerInstruction {
        opcode: Some(Token::Register { reg_num: 1 }),
        label: None,
        directive: None,
        operand1: None,
        operand2: None,
        operand3: None,
    };
    assert_eq!(register_as_opcode.to_bytes(), Err(AssemblerError::MalformedInstruction));
    let opcode_as_operand = opcode_instruction(
        Opcode::ADD,
        Some(Token::Register { reg_num: 1 }),
        Some(Token::Op { code: Opcode::ADD }),
        None,
    );
    assert_eq!(opcode_as_operand.to_bytes(), Err(AssemblerError::MalformedInstruction));
    let label_as_operand = opcode_instruction(
        Opcode::JMP,
        None,
        None,
        Some(Token::LabelUsage { name: "there".to_string() }),
    );
    assert_eq!(label_as_operand.to_bytes(), Err(AssemblerError::MalformedInstruction));
}

#[test]
fn a_program_is_its_instructions_in_order() {
    let program = parse_program("load $0 #500\nhlt").unwrap();
    assert_eq!(
        program,
        Program {
            instructions: vec![
                opcode_instruction(
                    Opcode::LOAD,
                    Some(Token::Register { reg_num: 0 }),
                    Some(Token::IntegerOperand { value: 500 }),
                    None
                ),
                opcode_instruction(Opcode::HLT, None, None, None),
            ]
        }
    );
    assert_eq!(program.to_bytes(), Ok(vec![0x01, 0x00, 0x01, 0xF4, 0x00]));
}

#[test]
fn instructions_are_separated_by_whitespace() {
    let program = parse_program("  \n hlt\nhlt  hlt\t\r\n").unwrap();
    assert_eq!(program.instructions.len(), 3);
    assert_eq!(program.to_bytes(), Ok(vec![0x00, 0x00, 0x00]));
    assert_eq!(parse_program(""), Ok(Program { instructions: vec![] }));
    assert_eq!(parse_program(" \n "), Ok(Program { instructions: vec![] }));
}

#[test]
fn text_that_no_instruction_starts_is_the_residual() {
    assert_eq!(parse_program("add $0 $1 $2\n  $3 hlt"), Err(parse_error("$3 hlt")));
    assert_eq!(parse_program("hlt ; stop"), Err(parse_error("; stop")));
    assert_eq!(parse_program("add $1 $2 $3 $4"), Err(parse_error("$4")));
    assert_eq!(parse_program("load $256 #1"), Err(parse_error("$256 #1")));
    assert_eq!(parse_program("load $0 #4294967296"), Err(parse_error("#4294967296")));
    assert_eq!(parse_program("jmp @there"), Err(parse_error("@there")));
    assert_eq!(parse_program("a : hlt"), Err(parse_error(": hlt")));
}

#[test]
fn load_then_hlt_assembles_and_runs() {
    let bytes = assemble("load $0 #500\nhlt").unwrap();
    assert_eq!(bytes, vec![0x01, 0x00, 0x01, 0xF4, 0x00]);
    let mut vm = VM::new();
    vm.append_bytes(&bytes);
    vm.run();
    assert_eq!(vm.registers[0], 500);
    assert_eq!(vm.pc, 5);
}

#[test]
fn assembling_reports_both_kinds_of_error() {
    assert_eq!(assemble("hlt\n1"), Err(parse_error("1")));
    assert_eq!(assemble("hlt\n#1"), Ok(vec![0x00, 0x00, 0x01]));
    assert_eq!(assemble("hlt\n.data #1"), Err(AssemblerError::MalformedInstruction));
    assert_eq!(assemble(""), Ok(vec![]));
    assert_eq!(
        assemble("first: load $1 #2 second: frob"),
        Ok(vec![0x01, 0x01, 0x00, 0x02, 0xFF])
    );
}

#[test]
fn encoded_length_is_one_and_the_operand_widths() {
    let cases = [
        ("hlt", 1),
        ("jmp $1", 2),
        ("jmp #1", 3),
        ("load $1 #500", 4),
        ("add $1 $2 $3", 4),
        ("add #1 #2 #3", 7),
        ("add $1 #2 $3", 5),
    ];
    for (source, length) in cases {
        let (rest, instruction) = parse_instruction(source).unwrap();
        assert_eq!(rest, "");
        assert_eq!(instruction.to_bytes().unwrap().len(), length);
    }
}
