//! The instruction set catalog: the operations of the machine, their one-byte
//! encodings and their mnemonics.

use vstd::prelude::*;
use vstd::std_specs::convert::FromSpecImpl;
use vstd::string::*;

verus! {

/// One operation of the machine, or `IGL` for a byte or a word that names none.
#[derive(Debug, PartialEq, Eq, Clone, Copy, Structural)]
pub enum Opcode {
    HLT,
    LOAD,
    ADD,
    SUB,
    MUL,
    DIV,
    JMP,
    JMPF,
    JMPB,
    EQ,
    NEQ,
    GT,
    LT,
    GTQ,
    LTQ,
    JEQ,
    JNEQ,
    ALOC,
    IGL(u8),
}

/// The byte that `IGL` carries when a mnemonic names no operation.
pub const UNKNOWN_MNEMONIC: u8 = 0xFF;

impl Opcode {
    /// Whether this is one of the eighteen operations of the machine.
    pub open spec fn is_legal(self) -> bool {
        !(self is IGL)
    }

    /// The one-byte encoding of an opcode; `IGL` encodes as the byte it carries.
    pub open spec fn byte(self) -> u8 {
        match self {
            Opcode::HLT => 0x00,
            Opcode::LOAD => 0x01,
            Opcode::ADD => 0x02,
            Opcode::SUB => 0x03,
            Opcode::MUL => 0x04,
            Opcode::DIV => 0x05,
            Opcode::JMP => 0x06,
            Opcode::JMPF => 0x07,
            Opcode::JMPB => 0x08,
            Opcode::EQ => 0x09,
            Opcode::NEQ => 0x0A,
            Opcode::GT => 0x0B,
            Opcode::LT => 0x0C,
            Opcode::GTQ => 0x0D,
            Opcode::LTQ => 0x0E,
            Opcode::JEQ => 0x0F,
            Opcode::JNEQ => 0x10,
            Opcode::ALOC => 0x11,
            Opcode::IGL(code) => code,
        }
    }

    /// The opcode that a byte decodes to; a byte that encodes no operation
    /// decodes to `IGL` carrying that byte.
    pub open spec fn from_byte(b: u8) -> Opcode {
        if b == 0x00 {
            Opcode::HLT
        } else if b == 0x01 {
            Opcode::LOAD
        } else if b == 0x02 {
            Opcode::ADD
        } else if b == 0x03 {
            Opcode::SUB
        } else if b == 0x04 {
            Opcode::MUL
        } else if b == 0x05 {
            Opcode::DIV
        } else if b == 0x06 {
            Opcode::JMP
        } else if b == 0x07 {
            Opcode::JMPF
        } else if b == 0x08 {
            Opcode::JMPB
        } else if b == 0x09 {
            Opcode::EQ
        } else if b == 0x0A {
            Opcode::NEQ
        } else if b == 0x0B {
            Opcode::GT
        } else if b == 0x0C {
            Opcode::LT
        } else if b == 0x0D {
            Opcode::GTQ
        } else if b == 0x0E {
            Opcode::LTQ
        } else if b == 0x0F {
            Opcode::JEQ
        } else if b == 0x10 {
            Opcode::JNEQ
        } else if b == 0x11 {
            Opcode::ALOC
        } else {
            Opcode::IGL(b)
        }
    }

    /// The opcode that a word names. The mnemonics are in lower case; a
    /// word that is no mnemonic names `IGL` carrying `UNKNOWN_MNEMONIC`.
    pub open spec fn from_mnemonic(word: Seq<char>) -> Opcode {
        if word == "hlt"@ {
            Opcode::HLT
        } else if word == "load"@ {
            Opcode::LOAD
        } else if word == "add"@ {
            Opcode::ADD
        } else if word == "sub"@ {
            Opcode::SUB
        } else if word == "mul"@ {
            Opcode::MUL
        } else if word == "div"@ {
            Opcode::DIV
        } else if word == "jmp"@ {
            Opcode::JMP
        } else if word == "jmpf"@ {
            Opcode::JMPF
        } else if word == "jmpb"@ {
            Opcode::JMPB
        } else if word == "eq"@ {
            Opcode::EQ
        } else if word == "neq"@ {
            Opcode::NEQ
        } else if word == "gt"@ {
            Opcode::GT
        } else if word == "lt"@ {
            Opcode::LT
        } else if word == "gtq"@ {
            Opcode::GTQ
        } else if word == "ltq"@ {
            Opcode::LTQ
        } else if word == "jeq"@ {
            Opcode::JEQ
        } else if word == "jneq"@ {
            Opcode::JNEQ
        } else if word == "aloc"@ {
            Opcode::ALOC
        } else {
            Opcode::IGL(UNKNOWN_MNEMONIC)
        }
    }

    /// The text that shows an opcode: the mnemonic of an operation, and for
    /// `IGL` the byte it carries as `0x` and two hexadecimal digits, the
    /// letters among them in upper case.
    pub open spec fn text(self) -> Seq<char> {
        match self {
            Opcode::HLT => "hlt"@,
            Opcode::LOAD => "load"@,
            Opcode::ADD => "add"@,
            Opcode::SUB => "sub"@,
            Opcode::MUL => "mul"@,
            Opcode::DIV => "div"@,
            Opcode::JMP => "jmp"@,
            Opcode::JMPF => "jmpf"@,
            Opcode::JMPB => "jmpb"@,
            Opcode::EQ => "eq"@,
            Opcode::NEQ => "neq"@,
            Opcode::GT => "gt"@,
            Opcode::LT => "lt"@,
            Opcode::GTQ => "gtq"@,
            Opcode::LTQ => "ltq"@,
            Opcode::JEQ => "jeq"@,
            Opcode::JNEQ => "jneq"@,
            Opcode::ALOC => "aloc"@,
            Opcode::IGL(code) => seq!['0', 'x', hex_digit(code / 16), hex_digit(code % 16)],
        }
    }

    /// The byte that encodes this opcode.
    pub fn to_u8(&self) -> (b: u8)
        ensures
            b == self.byte(),
    {
        match self {
            Opcode::HLT => 0x00,
            Opcode::LOAD => 0x01,
            Opcode::ADD => 0x02,
            Opcode::SUB => 0x03,
            Opcode::MUL => 0x04,
            Opcode::DIV => 0x05,
            Opcode::JMP => 0x06,
            Opcode::JMPF => 0x07,
            Opcode::JMPB => 0x08,
            Opcode::EQ => 0x09,
            Opcode::NEQ => 0x0A,
            Opcode::GT => 0x0B,
            Opcode::LT => 0x0C,
            Opcode::GTQ => 0x0D,
            Opcode::LTQ => 0x0E,
            Opcode::JEQ => 0x0F,
            Opcode::JNEQ => 0x10,
            Opcode::ALOC => 0x11,
            Opcode::IGL(code) => *code,
        }
    }
}

impl Opcode {
    /// The text that shows this opcode.
    pub fn display(&self) -> (shown: String)
        ensures
            shown@ == self.text(),
    {
        match self {
            Opcode::HLT => "hlt".to_owned(),
            Opcode::LOAD => "load".to_owned(),
            Opcode::ADD => "add".to_owned(),
            Opcode::SUB => "sub".to_owned(),
            Opcode::MUL => "mul".to_owned(),
            Opcode::DIV => "div".to_owned(),
            Opcode::JMP => "jmp".to_owned(),
            Opcode::JMPF => "jmpf".to_owned(),
            Opcode::JMPB => "jmpb".to_owned(),
            Opcode::EQ => "eq".to_owned(),
            Opcode::NEQ => "neq".to_owned(),
            Opcode::GT => "gt".to_owned(),
            Opcode::LT => "lt".to_owned(),
            Opcode::GTQ => "gtq".to_owned(),
            Opcode::LTQ => "ltq".to_owned(),
            Opcode::JEQ => "jeq".to_owned(),
            Opcode::JNEQ => "jneq".to_owned(),
            Opcode::ALOC => "aloc".to_owned(),
            Opcode::IGL(code) => {
                let mut shown = "0x".to_owned();
                proof {
                    reveal_strlit("0x");
                }
                shown.append(hex_digit_text(*code / 16));
                shown.append(hex_digit_text(*code % 16));
                assert(shown@ =~= self.text());
                shown
            },
        }
    }
}

/// The hexadecimal digit of a number under sixteen.
pub open spec fn hex_digit(n: u8) -> char
    recommends
        n < 16,
{
    if n == 0 {
        '0'
    } else if n == 1 {
        '1'
    } else if n == 2 {
        '2'
    } else if n == 3 {
        '3'
    } else if n == 4 {
        '4'
    } else if n == 5 {
        '5'
    } else if n == 6 {
        '6'
    } else if n == 7 {
        '7'
    } else if n == 8 {
        '8'
    } else if n == 9 {
        '9'
    } else if n == 10 {
        'A'
    } else if n == 11 {
        'B'
    } else if n == 12 {
        'C'
    } else if n == 13 {
        'D'
    } else if n == 14 {
        'E'
    } else {
        'F'
    }
}

/// The hexadecimal digit of a number under sixteen, as text.
fn hex_digit_text(n: u8) -> (digit: &'static str)
    requires
        n < 16,
    ensures
        digit@ == seq![hex_digit(n)],
{
    proof {
        reveal_strlit("0");
        reveal_strlit("1");
        reveal_strlit("2");
        reveal_strlit("3");
        reveal_strlit("4");
        reveal_strlit("5");
        reveal_strlit("6");
        reveal_strlit("7");
        reveal_strlit("8");
        reveal_strlit("9");
        reveal_strlit("A");
        reveal_strlit("B");
        reveal_strlit("C");
        reveal_strlit("D");
        reveal_strlit("E");
        reveal_strlit("F");
    }
    let digit = match n {
        0 => "0",
        1 => "1",
        2 => "2",
        3 => "3",
        4 => "4",
        5 => "5",
        6 => "6",
        7 => "7",
        8 => "8",
        9 => "9",
        10 => "A",
        11 => "B",
        12 => "C",
        13 => "D",
        14 => "E",
        _ => "F",
    };
    assert(digit@ =~= seq![hex_digit(n)]);
    digit
}

/// Whether two texts hold the same characters.
pub fn same_text(a: &str, b: &str) -> (same: bool)
    ensures
        same == (a@ == b@),
{
    let a = a.to_owned();
    let b = b.to_owned();
    a == b
}

impl<'a> From<&'a str> for Opcode {
    /// Looks a word up among the mnemonics.
    fn from(word: &'a str) -> (op: Self) {
        if same_text(word, "hlt") {
            Opcode::HLT
        } else if same_text(word, "load") {
            Opcode::LOAD
        } else if same_text(word, "add") {
            Opcode::ADD
        } else if same_text(word, "sub") {
            Opcode::SUB
        } else if same_text(word, "mul") {
            Opcode::MUL
        } else if same_text(word, "div") {
            Opcode::DIV
        } else if same_text(word, "jmp") {
            Opcode::JMP
        } else if same_text(word, "jmpf") {
            Opcode::JMPF
        } else if same_text(word, "jmpb") {
            Opcode::JMPB
        } else if same_text(word, "eq") {
            Opcode::EQ
        } else if same_text(word, "neq") {
            Opcode::NEQ
        } else if same_text(word, "gt") {
            Opcode::GT
        } else if same_text(word, "lt") {
            Opcode::LT
        } else if same_text(word, "gtq") {
            Opcode::GTQ
        } else if same_text(word, "ltq") {
            Opcode::LTQ
        } else if same_text(word, "jeq") {
            Opcode::JEQ
        } else if same_text(word, "jneq") {
            Opcode::JNEQ
        } else if same_text(word, "aloc") {
            Opcode::ALOC
        } else {
            Opcode::IGL(UNKNOWN_MNEMONIC)
        }
    }
}

impl<'a> FromSpecImpl<&'a str> for Opcode {
    open spec fn obeys_from_spec() -> bool {
        true
    }

    open spec fn from_spec(word: &'a str) -> Self {
        Opcode::from_mnemonic(word@)
    }
}

/// An instruction of the machine, as far as its opcode.
#[derive(Debug, PartialEq, Eq, Clone, Copy, Structural)]
pub struct Instruction {
    pub opcode: Opcode,
}

impl Instruction {
    /// The instruction with a given opcode.
    pub fn new(opcode: Opcode) -> (instruction: Instruction)
        ensures
            instruction.opcode == opcode,
    {
        Instruction { opcode }
    }
}

impl From<u8> for Opcode {
    /// Decodes a byte.
    fn from(v: u8) -> (op: Self) {
        match v {
            0x00 => Opcode::HLT,
            0x01 => Opcode::LOAD,
            0x02 => Opcode::ADD,
            0x03 => Opcode::SUB,
            0x04 => Opcode::MUL,
            0x05 => Opcode::DIV,
            0x06 => Opcode::JMP,
            0x07 => Opcode::JMPF,
            0x08 => Opcode::JMPB,
            0x09 => Opcode::EQ,
            0x0A => Opcode::NEQ,
            0x0B => Opcode::GT,
            0x0C => Opcode::LT,
            0x0D => Opcode::GTQ,
            0x0E => Opcode::LTQ,
            0x0F => Opcode::JEQ,
            0x10 => Opcode::JNEQ,
            0x11 => Opcode::ALOC,
            code => Opcode::IGL(code),
        }
    }
}

impl FromSpecImpl<u8> for Opcode {
    open spec fn obeys_from_spec() -> bool {
        true
    }

    open spec fn from_spec(v: u8) -> Self {
        Opcode::from_byte(v)
    }
}

/// Decoding the byte of an operation of the machine gives that operation back.
pub proof fn lemma_decode_encode(op: Opcode)
    requires
        op.is_legal(),
    ensures
        Opcode::from_byte(op.byte()) == op,
{
}

/// Encoding what a byte decodes to gives the byte back: for the bytes that
/// encode no operation, and for the others as well.
pub proof fn lemma_encode_decode(b: u8)
    ensures
        Opcode::from_byte(b).byte() == b,
        !Opcode::from_byte(b).is_legal() ==> Opcode::from_byte(b) == Opcode::IGL(b),
{
}

/// The mnemonic of an operation of the machine names that operation, so no
/// two operations share a mnemonic.
pub proof fn lemma_mnemonic_names_opcode(op: Opcode)
    requires
        op.is_legal(),
    ensures
        Opcode::from_mnemonic(op.text()) == op,
{
    reveal_strlit("hlt");
    reveal_strlit("load");
    reveal_strlit("add");
    reveal_strlit("sub");
    reveal_strlit("mul");
    reveal_strlit("div");
    reveal_strlit("jmp");
    reveal_strlit("jmpf");
    reveal_strlit("jmpb");
    reveal_strlit("eq");
    reveal_strlit("neq");
    reveal_strlit("gt");
    reveal_strlit("lt");
    reveal_strlit("gtq");
    reveal_strlit("ltq");
    reveal_strlit("jeq");
    reveal_strlit("jneq");
    reveal_strlit("aloc");
    assert("hlt"@.len() == 3 && "hlt"@[0] == 'h' && "hlt"@[1] == 'l' && "hlt"@[2] == 't');
    assert("load"@.len() == 4 && "load"@[0] == 'l' && "load"@[1] == 'o' && "load"@[2] == 'a' && "load"@[3] == 'd');
    assert("add"@.len() == 3 && "add"@[0] == 'a' && "add"@[1] == 'd' && "add"@[2] == 'd');
    assert("sub"@.len() == 3 && "sub"@[0] == 's' && "sub"@[1] == 'u' && "sub"@[2] == 'b');
    assert("mul"@.len() == 3 && "mul"@[0] == 'm' && "mul"@[1] == 'u' && "mul"@[2] == 'l');
    assert("div"@.len() == 3 && "div"@[0] == 'd' && "div"@[1] == 'i' && "div"@[2] == 'v');
    assert("jmp"@.len() == 3 && "jmp"@[0] == 'j' && "jmp"@[1] == 'm' && "jmp"@[2] == 'p');
    assert("jmpf"@.len() == 4 && "jmpf"@[0] == 'j' && "jmpf"@[1] == 'm' && "jmpf"@[2] == 'p' && "jmpf"@[3] == 'f');
    assert("jmpb"@.len() == 4 && "jmpb"@[0] == 'j' && "jmpb"@[1] == 'm' && "jmpb"@[2] == 'p' && "jmpb"@[3] == 'b');
    assert("eq"@.len() == 2 && "eq"@[0] == 'e' && "eq"@[1] == 'q');
    assert("neq"@.len() == 3 && "neq"@[0] == 'n' && "neq"@[1] == 'e' && "neq"@[2] == 'q');
    assert("gt"@.len() == 2 && "gt"@[0] == 'g' && "gt"@[1] == 't');
    assert("lt"@.len() == 2 && "lt"@[0] == 'l' && "lt"@[1] == 't');
    assert("gtq"@.len() == 3 && "gtq"@[0] == 'g' && "gtq"@[1] == 't' && "gtq"@[2] == 'q');
    assert("ltq"@.len() == 3 && "ltq"@[0] == 'l' && "ltq"@[1] == 't' && "ltq"@[2] == 'q');
    assert("jeq"@.len() == 3 && "jeq"@[0] == 'j' && "jeq"@[1] == 'e' && "jeq"@[2] == 'q');
    assert("jneq"@.len() == 4 && "jneq"@[0] == 'j' && "jneq"@[1] == 'n' && "jneq"@[2] == 'e' && "jneq"@[3] == 'q');
    assert("aloc"@.len() == 4 && "aloc"@[0] == 'a' && "aloc"@[1] == 'l' && "aloc"@[2] == 'o' && "aloc"@[3] == 'c');
}

} // verus!
