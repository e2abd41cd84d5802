//! Opcodes: a run of alphabetic characters, looked up among the mnemonics.

use crate::assembler::scan::{run_len, take_run, CharClass};
use crate::assembler::{agrees, reject, AssemblerError, Parsed, Token, TokenView};
use crate::instruction::Opcode;
use vstd::prelude::*;

verus! {

/// The opcode token at the start of a text: its longest prefix of alphabetic
/// characters, if that is not empty. A word that is no mnemonic is an opcode
/// token too, for the illegal opcode.
pub open spec fn opcode_token(s: Seq<char>) -> Parsed<TokenView> {
    let n = run_len(s, CharClass::Alphabetic) as int;
    if n > 0 {
        Some((TokenView::Op { code: Opcode::from_mnemonic(s.take(n)) }, s.skip(n)))
    } else {
        None
    }
}

/// Reads the opcode token at the start of a text.
pub fn parse_opcode(input: &str) -> (result: Result<(&str, Token), AssemblerError>)
    ensures
        agrees(result, opcode_token(input@), input@),
{
    match take_run(input, CharClass::Alphabetic) {
        Some((rest, word)) => Ok((rest, Token::Op { code: Opcode::from(word) })),
        None => Err(reject(input)),
    }
}

} // verus!
