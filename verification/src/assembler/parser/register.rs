//! Registers: `$` and the number of the register.

use crate::assembler::scan::{marked_number, take_marked_number};
use crate::assembler::{agrees, reject, AssemblerError, Parsed, Token, TokenView};
use vstd::prelude::*;

verus! {

/// The register token at the start of a text: `$` and a decimal number that
/// fits in a byte.
pub open spec fn register_token(s: Seq<char>) -> Parsed<TokenView> {
    match marked_number(s, '$', u8::MAX as nat) {
        Some((number, rest)) => Some((TokenView::Register { reg_num: number as u8 }, rest)),
        None => None,
    }
}

/// Reads the register token at the start of a text.
pub fn parse_register(input: &str) -> (result: Result<(&str, Token), AssemblerError>)
    ensures
        agrees(result, register_token(input@), input@),
{
    match take_marked_number(input, '$', 255) {
        Some((rest, number)) => Ok((rest, Token::Register { reg_num: number as u8 })),
        None => Err(reject(input)),
    }
}

} // verus!
