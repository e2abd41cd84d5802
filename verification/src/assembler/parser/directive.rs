//! Directives: `.` and a name, and the instruction that a directive makes
//! with its operands.

use crate::assembler::parser::instruction::{
    operand_list, parse_operand_list, AssemblerInstruction, InstructionView,
};
use crate::assembler::scan::{marked_run, take_marked_run, CharClass};
use crate::assembler::{agrees, reject, AssemblerError, Parsed, Token, TokenView};
use vstd::prelude::*;

verus! {

/// The directive at the start of a text: `.`, then a run of alphabetic
/// characters.
pub open spec fn directive_token(s: Seq<char>) -> Parsed<TokenView> {
    match marked_run(s, '.', CharClass::Alphabetic) {
        Some((name, rest)) => Some((TokenView::Directive { name }, rest)),
        None => None,
    }
}

/// The instruction with a directive at the start of a text: a directive and
/// up to three integer operands.
pub open spec fn directive_instruction(s: Seq<char>) -> Parsed<InstructionView> {
    match directive_token(s) {
        Some((directive, after)) => {
            let operands = operand_list(after, true);
            Some(
                (
                    InstructionView {
                        opcode: None,
                        label: None,
                        directive: Some(directive),
                        operand1: operands.first,
                        operand2: operands.second,
                        operand3: operands.third,
                    },
                    operands.rest,
                ),
            )
        },
        None => None,
    }
}

/// Reads the directive at the start of a text.
pub fn parse_directive_declaration(input: &str) -> (result: Result<
    (&str, Token),
    AssemblerError,
>)
    ensures
        agrees(result, directive_token(input@), input@),
{
    match take_marked_run(input, '.', CharClass::Alphabetic) {
        Some((rest, name)) => Ok((rest, Token::Directive { name: name.to_owned() })),
        None => Err(reject(input)),
    }
}

/// Reads the instruction with a directive at the start of a text.
pub fn parse_directive(input: &str) -> (result: Result<
    (&str, AssemblerInstruction),
    AssemblerError,
>)
    ensures
        agrees(result, directive_instruction(input@), input@),
{
    match parse_directive_declaration(input) {
        Ok((after, directive)) => {
            let (operand1, operand2, operand3, rest) = parse_operand_list(after, true);
            Ok(
                (
                    rest,
                    AssemblerInstruction {
                        opcode: None,
                        label: None,
                        directive: Some(directive),
                        operand1,
                        operand2,
                        operand3,
                    },
                ),
            )
        },
        Err(_) => Err(reject(input)),
    }
}

} // verus!
