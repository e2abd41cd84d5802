use iridium::assembler::AssemblerError;
use iridium::repl::{parse_hex_byte, Action, HexError, Repl};

#[test]
fn a_new_shell_has_a_new_machine() {
    let repl = Repl::new();
    assert_eq!(repl.command_buffer.len(), 0);
    assert_eq!(repl.vm.program.len(), 0);
    assert_eq!(repl.vm.pc, 0);
    assert_eq!(repl.vm.registers, [0; 32]);
}

#[test]
fn commands_are_answered_and_recorded() {
    let mut repl = Repl::new();
    assert_eq!(repl.handle_command(".history"), Action::ShowHistory);
    assert_eq!(repl.handle_command(".program"), Action::ShowProgram);
    assert_eq!(repl.handle_command(".register"), Action::ShowRegisters);
    assert_eq!(repl.handle_command(".load_file"), Action::LoadFile);
    assert_eq!(repl.handle_command(".quit"), Action::Quit);
    assert_eq!(
        repl.command_buffer,
        vec![".history", ".program", ".register", ".load_file", ".quit"]
    );
    assert_eq!(repl.vm.program.len(), 0);
    assert_eq!(repl.vm.pc, 0);
}

#[test]
fn a_line_of_assembly_is_appended_and_one_instruction_runs() {
    let mut repl = Repl::new();
    assert_eq!(repl.handle_command("load $1 #7 load $2 #8"), Action::Executed);
    assert_eq!(repl.vm.program, vec![0x01, 0x01, 0x00, 0x07, 0x01, 0x02, 0x00, 0x08]);
    assert_eq!(repl.vm.pc, 4);
    assert_eq!(repl.vm.registers[1], 7);
    assert_eq!(repl.vm.registers[2], 0);
    assert_eq!(repl.handle_command("add $1 $2 $3"), Action::Executed);
    assert_eq!(repl.vm.pc, 8);
    assert_eq!(repl.vm.registers[2], 8);
    assert_eq!(repl.vm.registers[3], 0);
    assert_eq!(repl.vm.program.len(), 12);
}

#[test]
fn a_line_that_is_not_assembled_changes_nothing_but_the_history() {
    let mut repl = Repl::new();
    assert_eq!(
        repl.handle_command("load $1 ?"),
        Action::Rejected { error: AssemblerError::ParseError { residual: "?".to_string() } }
    );
    assert_eq!(
        repl.handle_command(".data #1"),
        Action::Rejected { error: AssemblerError::MalformedInstruction }
    );
    assert_eq!(repl.vm.program.len(), 0);
    assert_eq!(repl.vm.pc, 0);
    assert_eq!(repl.command_buffer, vec!["load $1 ?", ".data #1"]);
}

#[test]
fn clear_empties_the_program_only() {
    let mut repl = Repl::new();
    assert_eq!(repl.handle_command("load $1 #7"), Action::Executed);
    assert_eq!(repl.handle_command(".clear"), Action::Cleared);
    assert_eq!(repl.vm.program.len(), 0);
    assert_eq!(repl.vm.pc, 4);
    assert_eq!(repl.vm.registers[1], 7);
    assert_eq!(repl.command_buffer, vec!["load $1 #7", ".clear"]);
}

#[test]
fn lines_are_trimmed_before_they_are_handled() {
    let mut repl = Repl::new();
    assert_eq!(repl.handle_line("  .clear \r\n"), Action::Cleared);
    assert_eq!(repl.handle_line("hlt\n"), Action::Executed);
    assert_eq!(repl.handle_line("\n"), Action::Executed);
    assert_eq!(repl.command_buffer, vec![".clear", "hlt", ""]);
    assert_eq!(repl.vm.program, vec![0x00]);
    assert_eq!(repl.vm.pc, 1);
}

#[test]
fn a_loaded_program_is_appended_and_not_run() {
    let mut repl = Repl::new();
    assert_eq!(repl.load_program("load $0 #500\nhlt\n"), Ok(()));
    assert_eq!(repl.vm.program, vec![0x01, 0x00, 0x01, 0xF4, 0x00]);
    assert_eq!(repl.vm.pc, 0);
    assert_eq!(repl.vm.registers[0], 0);
    assert_eq!(repl.command_buffer.len(), 0);
    assert_eq!(
        repl.load_program("hlt :"),
        Err(AssemblerError::ParseError { residual: ":".to_string() })
    );
    assert_eq!(repl.load_program(".code"), Err(AssemblerError::MalformedInstruction));
    assert_eq!(repl.vm.program.len(), 5);
}

#[test]
fn hexadecimal_bytes_are_separated_by_single_spaces() {
    let mut repl = Repl::new();
    assert_eq!(repl.parse_hex("01 00 01 F4"), Ok(vec![0x01, 0x00, 0x01, 0xF4]));
    assert_eq!(repl.parse_hex("ff"), Ok(vec![0xFF]));
    assert_eq!(repl.parse_hex("a B 0c +d 000e"), Ok(vec![0x0A, 0x0B, 0x0C, 0x0D, 0x0E]));
    assert_eq!(repl.parse_hex(""), Err(HexError { place: 0 }));
    assert_eq!(repl.parse_hex("01  02"), Err(HexError { place: 1 }));
    assert_eq!(repl.parse_hex("01 02 "), Err(HexError { place: 2 }));
    assert_eq!(repl.parse_hex(" 01"), Err(HexError { place: 0 }));
    assert_eq!(repl.parse_hex("01 100"), Err(HexError { place: 1 }));
    assert_eq!(repl.parse_hex("01 0x02"), Err(HexError { place: 1 }));
    assert_eq!(repl.parse_hex("01 -2 zz"), Err(HexError { place: 1 }));
    assert_eq!(repl.parse_hex("+"), Err(HexError { place: 0 }));
    assert_eq!(repl.parse_hex("01\t02"), Err(HexError { place: 0 }));
    assert_eq!(repl.command_buffer.len(), 0);
    assert_eq!(repl.vm.program.len(), 0);
}

#[test]
fn a_hexadecimal_byte_is_at_most_two_significant_digits() {
    assert_eq!(parse_hex_byte("0"), Some(0));
    assert_eq!(parse_hex_byte("fF"), Some(255));
    assert_eq!(parse_hex_byte("0000000000000000000000ff"), Some(255));
    assert_eq!(parse_hex_byte("100"), None);
    assert_eq!(parse_hex_byte("fffffffffffffffffffffffff"), None);
    assert_eq!(parse_hex_byte("g"), None);
    assert_eq!(parse_hex_byte("1g"), None);
    assert_eq!(parse_hex_byte("+1f"), Some(0x1F));
    assert_eq!(parse_hex_byte("++1"), None);
    assert_eq!(parse_hex_byte("1+"), None);
    assert_eq!(parse_hex_byte(""), None);
}

#[test]
fn hexadecimal_reading_agrees_with_the_standard_library() {
    let pieces = ["", "+", "-", "0", "7f", "+7F", "-1", "100", "0ff", "1 ", "_1", "0x1", "\u{662}"];
    for piece in pieces {
        assert_eq!(parse_hex_byte(piece), u8::from_str_radix(piece, 16).ok());
    }
}
