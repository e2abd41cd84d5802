//! Programs: the instructions of a whole text, and their bytes.

use crate::assembler::parser::instruction::{
    instruction, lemma_instruction_is_well_formed, parse_instruction, AssemblerInstruction,
    InstructionView,
};
use crate::assembler::scan::{lemma_run_len_bound, skip_whitespace, skip_ws, CharClass};
use crate::assembler::{rejects, AssemblerError};
use vstd::prelude::*;

verus! {

/// The instructions of an assembly text, in their order.
#[derive(Debug, PartialEq)]
pub struct Program {
    pub instructions: Vec<AssemblerInstruction>,
}

impl View for Program {
    type V = Seq<InstructionView>;

    open spec fn view(&self) -> Seq<InstructionView> {
        self.instructions@.map_values(|instruction: AssemblerInstruction| instruction@)
    }
}

/// The instructions of a text: instructions with any whitespace between
/// them, before the first and behind the last, up to the end of the text.
/// Where text is left that no instruction starts, that text is the error.
pub open spec fn instructions(s: Seq<char>) -> Result<Seq<InstructionView>, Seq<char>>
    decreases s.len(),
    via instructions_decreases
{
    let start = skip_ws(s);
    if start.len() == 0 {
        Ok(Seq::empty())
    } else {
        match instruction(start) {
            Some((first, after)) => following(seq![first], instructions(after)),
            None => Err(start),
        }
    }
}

#[via_fn]
proof fn instructions_decreases(s: Seq<char>) {
    lemma_run_len_bound(s, CharClass::Whitespace);
    lemma_instruction_is_well_formed(skip_ws(s));
}

/// The instructions of a text of which some were read already.
pub open spec fn following(
    done: Seq<InstructionView>,
    others: Result<Seq<InstructionView>, Seq<char>>,
) -> Result<Seq<InstructionView>, Seq<char>> {
    match others {
        Ok(others) => Ok(done + others),
        Err(residual) => Err(residual),
    }
}

/// The bytes of a sequence of instructions: the bytes of each, in their
/// order. It has none if one of the instructions has none.
pub open spec fn program_bytes(program: Seq<InstructionView>) -> Option<Seq<u8>>
    decreases program.len(),
{
    if program.len() == 0 {
        Some(Seq::empty())
    } else {
        appended(program[0].bytes(), program_bytes(program.skip(1)))
    }
}

/// The bytes of some instructions followed by those of others.
pub open spec fn appended(done: Option<Seq<u8>>, others: Option<Seq<u8>>) -> Option<Seq<u8>> {
    match (done, others) {
        (Some(done), Some(others)) => Some(done + others),
        _ => None,
    }
}

/// Reads a whole text as a program.
pub fn parse_program(input: &str) -> (result: Result<Program, AssemblerError>)
    ensures
        match result {
            Ok(program) => instructions(input@) == Ok::<_, Seq<char>>(program@),
            Err(error) => instructions(input@) matches Err(residual) && rejects(error, residual),
        },
{
    let mut program = Program { instructions: Vec::new() };
    let mut rest = input;
    assert(program@ =~= Seq::empty());
    assert(following(program@, instructions(rest@)) == instructions(input@)) by {
        match instructions(rest@) {
            Ok(others) => {
                assert(program@ + others =~= others);
            },
            Err(_) => {},
        }
    }
    loop
        invariant
            instructions(input@) == following(program@, instructions(rest@)),
        decreases rest@.len(),
    {
        let start = skip_whitespace(rest);
        if start.is_empty() {
            assert(program@ + Seq::<InstructionView>::empty() =~= program@);
            return Ok(program);
        }
        match parse_instruction(start) {
            Ok((after, found)) => {
                proof {
                    lemma_run_len_bound(rest@, CharClass::Whitespace);
                    lemma_instruction_is_well_formed(start@);
                    let longer = program@.push(found@);
                    match instructions(after@) {
                        Ok(others) => {
                            assert(longer + others =~= program@ + (seq![found@] + others));
                        },
                        Err(_) => {},
                    }
                    assert(program.instructions@.push(found).map_values(
                        |instruction: AssemblerInstruction| instruction@,
                    ) =~= longer);
                }
                program.instructions.push(found);
                rest = after;
            },
            Err(error) => {
                return Err(error);
            },
        }
    }
}

impl Program {
    /// The bytes of this program, or `MalformedInstruction` where one of its
    /// instructions has none.
    pub fn to_bytes(&self) -> (result: Result<Vec<u8>, AssemblerError>)
        ensures
            match result {
                Ok(bytes) => program_bytes(self@) == Some(bytes@),
                Err(error) => program_bytes(self@) is None && error is MalformedInstruction,
            },
    {
        let mut result: Vec<u8> = Vec::new();
        let mut i: usize = 0;
        assert(self@.skip(0) =~= self@);
        assert(appended(Some(result@), program_bytes(self@)) == program_bytes(self@)) by {
            if program_bytes(self@) is Some {
                assert(result@ + program_bytes(self@)->0 =~= program_bytes(self@)->0);
            }
        }
        while i < self.instructions.len()
            invariant
                i <= self.instructions.len(),
                program_bytes(self@) == appended(Some(result@), program_bytes(self@.skip(i as int))),
            decreases self.instructions.len() - i,
        {
            proof {
                assert(self@.skip(i as int)[0] == self.instructions[i as int]@);
                assert(self@.skip(i as int).skip(1) =~= self@.skip(i + 1));
            }
            match self.instructions[i].to_bytes() {
                Ok(mut bytes) => {
                    proof {
                        if program_bytes(self@.skip(i + 1)) is Some {
                            let others = program_bytes(self@.skip(i + 1))->0;
                            assert((result@ + bytes@) + others =~= result@ + (bytes@ + others));
                        }
                    }
                    result.append(&mut bytes);
                },
                Err(error) => {
                    return Err(error);
                },
            }
            i += 1;
        }
        assert(result@ + Seq::<u8>::empty() =~= result@);
        Ok(result)
    }
}

} // verus!
