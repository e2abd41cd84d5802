use iridium::instruction::{Instruction, Opcode};

#[test]
fn test_create_hlt() {
    let inst = Instruction::new(Opcode::HLT);
    assert_eq!(inst.opcode, Opcode::HLT);
}

#[test]
fn test_create_igl() {
    let inst = Instruction::new(Opcode::IGL(0x01));
    assert_eq!(inst.opcode, Opcode::IGL(0x01));
}

#[test]
fn tets_str_to_opcode() {
    let opcode = Opcode::from("load");
    assert_eq!(opcode, Opcode::LOAD);
    let opcode = Opcode::from("illegal");
    assert_eq!(opcode, Opcode::IGL(0xFF));
}

fn legal_opcodes() -> Vec<(Opcode, u8, &'static str)> {
    vec![
        (Opcode::HLT, 0x00, "hlt"),
        (Opcode::LOAD, 0x01, "load"),
        (Opcode::ADD, 0x02, "add"),
        (Opcode::SUB, 0x03, "sub"),
        (Opcode::MUL, 0x04, "mul"),
        (Opcode::DIV, 0x05, "div"),
        (Opcode::JMP, 0x06, "jmp"),
        (Opcode::JMPF, 0x07, "jmpf"),
        (Opcode::JMPB, 0x08, "jmpb"),
        (Opcode::EQ, 0x09, "eq"),
        (Opcode::NEQ, 0x0A, "neq"),
        (Opcode::GT, 0x0B, "gt"),
        (Opcode::LT, 0x0C, "lt"),
        (Opcode::GTQ, 0x0D, "gtq"),
        (Opcode::LTQ, 0x0E, "ltq"),
        (Opcode::JEQ, 0x0F, "jeq"),
        (Opcode::JNEQ, 0x10, "jneq"),
        (Opcode::ALOC, 0x11, "aloc"),
    ]
}

#[test]
fn every_opcode_has_its_byte_and_its_mnemonic() {
    let table = legal_opcodes();
    assert_eq!(table.len(), 18);
    for (opcode, byte, mnemonic) in table {
        assert_eq!(opcode.to_u8(), byte);
        assert_eq!(Opcode::from(byte), opcode);
        assert_eq!(Opcode::from(mnemonic), opcode);
        assert_eq!(opcode.display(), mnemonic);
    }
}

#[test]
fn decoding_an_encoded_opcode_gives_it_back() {
    for (opcode, _, _) in legal_opcodes() {
        assert_eq!(Opcode::from(opcode.to_u8()), opcode);
    }
}

#[test]
fn encoding_a_decoded_byte_gives_it_back() {
    for byte in 0..=255u8 {
        assert_eq!(Opcode::from(byte).to_u8(), byte);
        if byte > 0x11 {
            assert_eq!(Opcode::from(byte), Opcode::IGL(byte));
        }
    }
}

#[test]
fn illegal_opcode_encodes_as_the_byte_it_carries() {
    assert_eq!(Opcode::IGL(0x01).to_u8(), 0x01);
    assert_eq!(Opcode::IGL(0xAB).to_u8(), 0xAB);
}

#[test]
fn illegal_opcode_is_shown_in_upper_case_hex() {
    assert_eq!(Opcode::IGL(0xFF).display(), "0xFF");
    assert_eq!(Opcode::IGL(0x0A).display(), "0x0A");
    assert_eq!(Opcode::IGL(0x00).display(), "0x00");
    assert_eq!(Opcode::IGL(0x9C).display(), "0x9C");
}

#[test]
fn mnemonics_are_in_lower_case() {
    assert_eq!(Opcode::from("LOAD"), Opcode::IGL(0xFF));
    assert_eq!(Opcode::from("Hlt"), Opcode::IGL(0xFF));
    assert_eq!(Opcode::from(""), Opcode::IGL(0xFF));
    assert_eq!(Opcode::from("jmpx"), Opcode::IGL(0xFF));
}
