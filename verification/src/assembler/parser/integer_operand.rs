//! Integer operands, `#` and a number, and operands of either kind.

use crate::assembler::parser::register::{parse_register, register_token};
use crate::assembler::scan::{marked_number, take_marked_number};
use crate::assembler::{agrees, reject, AssemblerError, Parsed, Token, TokenView};
use vstd::prelude::*;

verus! {

/// The integer operand at the start of a text: `#` and a decimal number that
/// fits in 32 bits with a sign.
pub open spec fn integer_operand_token(s: Seq<char>) -> Parsed<TokenView> {
    match marked_number(s, '#', i32::MAX as nat) {
        Some((number, rest)) => Some((TokenView::IntegerOperand { value: number as i32 }, rest)),
        None => None,
    }
}

/// The operand at the start of a text: an integer operand or a register.
pub open spec fn operand_token(s: Seq<char>) -> Parsed<TokenView> {
    match integer_operand_token(s) {
        Some(found) => Some(found),
        None => register_token(s),
    }
}

/// Reads the integer operand at the start of a text.
pub fn parse_integer_operand(input: &str) -> (result: Result<(&str, Token), AssemblerError>)
    ensures
        agrees(result, integer_operand_token(input@), input@),
{
    match take_marked_number(input, '#', 0x7FFF_FFFF) {
        Some((rest, number)) => Ok((rest, Token::IntegerOperand { value: number as i32 })),
        None => Err(reject(input)),
    }
}

/// Reads the operand at the start of a text.
pub fn parse_operand(input: &str) -> (result: Result<(&str, Token), AssemblerError>)
    ensures
        agrees(result, operand_token(input@), input@),
{
    match parse_integer_operand(input) {
        Ok(found) => Ok(found),
        Err(_) => parse_register(input),
    }
}

} // verus!
