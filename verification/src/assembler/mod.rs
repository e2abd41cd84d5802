//! The assembler: from assembly text to tokens, from tokens to instructions,
//! and from instructions to bytecode.

use crate::assembler::parser::program::{instructions, parse_program, program_bytes};
use crate::instruction::Opcode;
use vstd::prelude::*;

pub mod parser;
pub mod scan;

verus! {

/// A token of the assembly language.
#[derive(Debug, PartialEq)]
pub enum Token {
    Op { code: Opcode },
    Register { reg_num: u8 },
    IntegerOperand { value: i32 },
    LabelDeclaration { name: String },
    LabelUsage { name: String },
    Directive { name: String },
}

/// A token as a mathematical value: its names are sequences of characters.
pub enum TokenView {
    Op { code: Opcode },
    Register { reg_num: u8 },
    IntegerOperand { value: i32 },
    LabelDeclaration { name: Seq<char> },
    LabelUsage { name: Seq<char> },
    Directive { name: Seq<char> },
}

impl View for Token {
    type V = TokenView;

    open spec fn view(&self) -> TokenView {
        match self {
            Token::Op { code } => TokenView::Op { code: *code },
            Token::Register { reg_num } => TokenView::Register { reg_num: *reg_num },
            Token::IntegerOperand { value } => TokenView::IntegerOperand { value: *value },
            Token::LabelDeclaration { name } => TokenView::LabelDeclaration { name: name@ },
            Token::LabelUsage { name } => TokenView::LabelUsage { name: name@ },
            Token::Directive { name } => TokenView::Directive { name: name@ },
        }
    }
}

/// Why the assembler gave up.
#[derive(Debug, PartialEq)]
pub enum AssemblerError {
    /// The text does not follow the grammar; `residual` is the text that
    /// was left when no rule applied.
    ParseError { residual: String },
    /// An instruction has no opcode, or holds in its opcode field or in an
    /// operand field a token that cannot stand there.
    MalformedInstruction,
}

/// An error of the assembler as a mathematical value.
pub enum ErrorView {
    ParseError { residual: Seq<char> },
    MalformedInstruction,
}

impl View for AssemblerError {
    type V = ErrorView;

    open spec fn view(&self) -> ErrorView {
        match self {
            AssemblerError::ParseError { residual } => ErrorView::ParseError {
                residual: residual@,
            },
            AssemblerError::MalformedInstruction => ErrorView::MalformedInstruction,
        }
    }
}

/// What a parser of one item of the grammar found: the item and the text
/// behind it, or nothing.
pub type Parsed<T> = Option<(T, Seq<char>)>;

/// Whether the result of a parser is what the grammar says of its input:
/// the item with the text left behind it, or where the grammar finds no
/// item the error that carries the whole input as residual.
pub open spec fn agrees<T: View>(
    result: Result<(&str, T), AssemblerError>,
    expected: Parsed<T::V>,
    input: Seq<char>,
) -> bool {
    match result {
        Ok((rest, item)) => expected == Some((item@, rest@)),
        Err(error) => expected is None && rejects(error, input),
    }
}

/// Whether an error is the parse error with a given residual.
pub open spec fn rejects(error: AssemblerError, residual: Seq<char>) -> bool {
    error@ == (ErrorView::ParseError { residual })
}

/// The parse error with a given residual.
pub fn reject(residual: &str) -> (error: AssemblerError)
    ensures
        rejects(error, residual@),
{
    AssemblerError::ParseError { residual: residual.to_owned() }
}

/// The bytecode of an assembly text: the bytes of its instructions, in
/// their order. A text that does not follow the grammar has none, nor one
/// with an instruction that has no bytes, such as a directive.
pub open spec fn assembled(source: Seq<char>) -> Result<Seq<u8>, ErrorView> {
    match instructions(source) {
        Ok(program) => match program_bytes(program) {
            Some(bytes) => Ok(bytes),
            None => Err(ErrorView::MalformedInstruction),
        },
        Err(residual) => Err(ErrorView::ParseError { residual }),
    }
}

/// Whether the result of assembling is what `assembled` says.
pub open spec fn is_assembled(
    result: Result<Vec<u8>, AssemblerError>,
    expected: Result<Seq<u8>, ErrorView>,
) -> bool {
    match result {
        Ok(bytes) => expected == Ok::<_, ErrorView>(bytes@),
        Err(error) => expected == Err::<Seq<u8>, _>(error@),
    }
}

/// Assembles a text: reads it as a program and writes the program as bytes.
pub fn assemble(source: &str) -> (result: Result<Vec<u8>, AssemblerError>)
    ensures
        is_assembled(result, assembled(source@)),
{
    match parse_program(source) {
        Ok(program) => program.to_bytes(),
        Err(error) => Err(error),
    }
}

} // verus!
