//! Instructions: how they are read from text and how they are written as
//! bytes.

use crate::assembler::parser::directive::{
    directive_instruction, directive_token, parse_directive,
};
use crate::assembler::parser::integer_operand::{
    integer_operand_token, operand_token, parse_integer_operand, parse_operand,
};
use crate::assembler::parser::label::{label_declaration_token, parse_label_declaration};
use crate::assembler::parser::opcode::{opcode_token, parse_opcode};
use crate::assembler::scan::{
    lemma_run_len_bound, run_len, skip_whitespace, skip_ws, CharClass,
};
use crate::assembler::{agrees, reject, AssemblerError, Parsed, Token, TokenView};
use vstd::prelude::*;

verus! {

/// One instruction of an assembly text: an opcode or a directive, the label
/// declared in front of it, and up to three operands.
#[derive(Debug, PartialEq)]
pub struct AssemblerInstruction {
    pub opcode: Option<Token>,
    pub label: Option<Token>,
    pub directive: Option<Token>,
    pub operand1: Option<Token>,
    pub operand2: Option<Token>,
    pub operand3: Option<Token>,
}

/// An instruction as a mathematical value.
pub struct InstructionView {
    pub opcode: Option<TokenView>,
    pub label: Option<TokenView>,
    pub directive: Option<TokenView>,
    pub operand1: Option<TokenView>,
    pub operand2: Option<TokenView>,
    pub operand3: Option<TokenView>,
}

/// The token in a field of an instruction, as a mathematical value.
pub open spec fn view_of(field: Option<Token>) -> Option<TokenView> {
    match field {
        Some(token) => Some(token@),
        None => None,
    }
}

impl View for AssemblerInstruction {
    type V = InstructionView;

    open spec fn view(&self) -> InstructionView {
        InstructionView {
            opcode: view_of(self.opcode),
            label: view_of(self.label),
            directive: view_of(self.directive),
            operand1: view_of(self.operand1),
            operand2: view_of(self.operand2),
            operand3: view_of(self.operand3),
        }
    }
}

/// Whether a field holds nothing or an operand: a register or an integer.
pub open spec fn is_operand_field(field: Option<TokenView>) -> bool {
    field matches Some(token) ==> token is Register || token is IntegerOperand
}

/// The two bytes of an integer operand: the low 16 bits of the integer in
/// two's complement, the high byte first.
pub open spec fn word_bytes(value: i32) -> Seq<u8> {
    let word = (value as int) % 0x1_0000;
    seq![(word / 0x100) as u8, (word % 0x100) as u8]
}

/// The bytes of an operand field: none for an empty field, the number of a
/// register, the two bytes of an integer. No other token has bytes there.
pub open spec fn operand_bytes(field: Option<TokenView>) -> Option<Seq<u8>> {
    match field {
        None => Some(Seq::empty()),
        Some(TokenView::Register { reg_num }) => Some(seq![reg_num]),
        Some(TokenView::IntegerOperand { value }) => Some(word_bytes(value)),
        Some(_) => None,
    }
}

/// The number of bytes of an operand: one for a register, two for an integer.
pub open spec fn operand_width(field: Option<TokenView>) -> nat {
    match field {
        Some(TokenView::Register { .. }) => 1,
        Some(TokenView::IntegerOperand { .. }) => 2,
        _ => 0,
    }
}

impl InstructionView {
    /// What holds of every instruction that was read from text: it has an
    /// opcode or a directive and not both, a label only in front of an
    /// opcode, and operands without a gap before them; and each field holds
    /// a token of its kind.
    pub open spec fn well_formed(self) -> bool {
        &&& self.opcode is Some != self.directive is Some
        &&& self.opcode matches Some(token) ==> token is Op
        &&& self.directive matches Some(token) ==> token is Directive
        &&& self.label matches Some(token) ==> token is LabelDeclaration && self.opcode is Some
        &&& is_operand_field(self.operand1)
        &&& is_operand_field(self.operand2)
        &&& is_operand_field(self.operand3)
        &&& self.operand2 is Some ==> self.operand1 is Some
        &&& self.operand3 is Some ==> self.operand2 is Some
    }

    /// The bytes of an instruction: the byte of its opcode, then the bytes of
    /// its operands in their order. An instruction without an opcode token in
    /// its opcode field has none, nor one with another token than a register
    /// or an integer in an operand field.
    pub open spec fn bytes(self) -> Option<Seq<u8>> {
        match (
            self.opcode,
            operand_bytes(self.operand1),
            operand_bytes(self.operand2),
            operand_bytes(self.operand3),
        ) {
            (Some(TokenView::Op { code }), Some(first), Some(second), Some(third)) => Some(
                seq![code.byte()] + first + second + third,
            ),
            _ => None,
        }
    }
}

/// The operands behind an opcode or a directive, and the text left behind
/// them.
pub struct OperandList {
    pub first: Option<TokenView>,
    pub second: Option<TokenView>,
    pub third: Option<TokenView>,
    pub rest: Seq<char>,
}

/// The operand at the start of a text, where only integers may stand or
/// where registers may stand too.
pub open spec fn operand_slot(s: Seq<char>, integers_only: bool) -> Parsed<TokenView> {
    if integers_only {
        integer_operand_token(s)
    } else {
        operand_token(s)
    }
}

/// Up to three operands, each with any whitespace in front of it. The
/// whitespace behind the last of them is passed over too.
pub open spec fn operand_list(s: Seq<char>, integers_only: bool) -> OperandList {
    let start = skip_ws(s);
    match operand_slot(start, integers_only) {
        None => OperandList { first: None, second: None, third: None, rest: start },
        Some((first, after)) => {
            let start = skip_ws(after);
            match operand_slot(start, integers_only) {
                None => OperandList { first: Some(first), second: None, third: None, rest: start },
                Some((second, after)) => {
                    let start = skip_ws(after);
                    match operand_slot(start, integers_only) {
                        None => OperandList {
                            first: Some(first),
                            second: Some(second),
                            third: None,
                            rest: start,
                        },
                        Some((third, after)) => OperandList {
                            first: Some(first),
                            second: Some(second),
                            third: Some(third),
                            rest: skip_ws(after),
                        },
                    }
                },
            }
        },
    }
}

/// The instruction with an opcode at the start of a text: a label
/// declaration or none, an opcode, and up to three operands.
pub open spec fn instruction_combined(s: Seq<char>) -> Parsed<InstructionView> {
    let (label, start) = match label_declaration_token(s) {
        Some((label, after)) => (Some(label), after),
        None => (None, s),
    };
    match opcode_token(start) {
        Some((opcode, after)) => {
            let operands = operand_list(after, false);
            Some(
                (
                    InstructionView {
                        opcode: Some(opcode),
                        label,
                        directive: None,
                        operand1: operands.first,
                        operand2: operands.second,
                        operand3: operands.third,
                    },
                    operands.rest,
                ),
            )
        },
        None => None,
    }
}

/// The instruction at the start of a text: one with an opcode, or else one
/// with a directive.
pub open spec fn instruction(s: Seq<char>) -> Parsed<InstructionView> {
    match instruction_combined(s) {
        Some(found) => Some(found),
        None => directive_instruction(s),
    }
}

impl AssemblerInstruction {
    /// The bytes of this instruction, or `MalformedInstruction` where it has
    /// none.
    pub fn to_bytes(&self) -> (result: Result<Vec<u8>, AssemblerError>)
        ensures
            match result {
                Ok(bytes) => self@.bytes() == Some(bytes@),
                Err(error) => self@.bytes() is None && error is MalformedInstruction,
            },
    {
        let mut result: Vec<u8> = Vec::new();
        match &self.opcode {
            Some(Token::Op { code }) => {
                result.push(code.to_u8());
            },
            _ => {
                return Err(AssemblerError::MalformedInstruction);
            },
        }
        if let Err(error) = AssemblerInstruction::extract_operand(&self.operand1, &mut result) {
            return Err(error);
        }
        if let Err(error) = AssemblerInstruction::extract_operand(&self.operand2, &mut result) {
            return Err(error);
        }
        if let Err(error) = AssemblerInstruction::extract_operand(&self.operand3, &mut result) {
            return Err(error);
        }
        assert(result@ =~= self@.bytes()->0);
        Ok(result)
    }

    /// Appends the bytes of an operand field, or fails and appends nothing
    /// where the field holds another token than a register or an integer.
    fn extract_operand(field: &Option<Token>, result: &mut Vec<u8>) -> (outcome: Result<
        (),
        AssemblerError,
    >)
        ensures
            match outcome {
                Ok(_) => operand_bytes(view_of(*field)) matches Some(bytes) && final(result)@
                    == old(result)@ + bytes,
                Err(error) => operand_bytes(view_of(*field)) is None && error
                    is MalformedInstruction && final(result)@ == old(result)@,
            },
    {
        match field {
            None => {
                assert(result@ =~= old(result)@ + Seq::<u8>::empty());
                Ok(())
            },
            Some(Token::Register { reg_num }) => {
                result.push(*reg_num);
                assert(result@ =~= old(result)@ + seq![*reg_num]);
                Ok(())
            },
            Some(Token::IntegerOperand { value }) => {
                let word = low_word(*value);
                result.push((word / 0x100) as u8);
                result.push((word % 0x100) as u8);
                assert(result@ =~= old(result)@ + word_bytes(*value));
                Ok(())
            },
            Some(_) => Err(AssemblerError::MalformedInstruction),
        }
    }
}

/// The low 16 bits of an integer in two's complement.
fn low_word(value: i32) -> (word: u32)
    ensures
        word == (value as int) % 0x1_0000,
{
    // the remainder is there: the divisor is neither zero nor -1
    match value.checked_rem_euclid(0x1_0000) {
        Some(word) => word as u32,
        None => 0,
    }
}

/// Reads the operand at the start of a text, where only integers may stand
/// or where registers may stand too.
fn parse_operand_slot(input: &str, integers_only: bool) -> (result: Result<
    (&str, Token),
    AssemblerError,
>)
    ensures
        agrees(result, operand_slot(input@, integers_only), input@),
{
    if integers_only {
        parse_integer_operand(input)
    } else {
        parse_operand(input)
    }
}

/// Reads up to three operands and passes over the whitespace around them:
/// the operands, and the text left behind them.
pub fn parse_operand_list<'a>(input: &'a str, integers_only: bool) -> (found: (
    Option<Token>,
    Option<Token>,
    Option<Token>,
    &'a str,
))
    ensures
        operand_list(input@, integers_only) == (OperandList {
            first: view_of(found.0),
            second: view_of(found.1),
            third: view_of(found.2),
            rest: found.3@,
        }),
{
    let start = skip_whitespace(input);
    let (first, start) = match parse_operand_slot(start, integers_only) {
        Ok((after, token)) => (token, skip_whitespace(after)),
        Err(_) => {
            return (None, None, None, start);
        },
    };
    let (second, start) = match parse_operand_slot(start, integers_only) {
        Ok((after, token)) => (token, skip_whitespace(after)),
        Err(_) => {
            return (Some(first), None, None, start);
        },
    };
    match parse_operand_slot(start, integers_only) {
        Ok((after, token)) => (Some(first), Some(second), Some(token), skip_whitespace(after)),
        Err(_) => (Some(first), Some(second), None, start),
    }
}

/// Reads the instruction with an opcode at the start of a text.
pub fn parse_instruction_combined(input: &str) -> (result: Result<
    (&str, AssemblerInstruction),
    AssemblerError,
>)
    ensures
        agrees(result, instruction_combined(input@), input@),
{
    let (label, start) = match parse_label_declaration(input) {
        Ok((after, label)) => (Some(label), after),
        Err(_) => (None, input),
    };
    match parse_opcode(start) {
        Ok((after, opcode)) => {
            let (operand1, operand2, operand3, rest) = parse_operand_list(after, false);
            Ok(
                (
                    rest,
                    AssemblerInstruction {
                        opcode: Some(opcode),
                        label,
                        directive: None,
                        operand1,
                        operand2,
                        operand3,
                    },
                ),
            )
        },
        Err(_) => Err(reject(input)),
    }
}

/// Reads the instruction at the start of a text.
pub fn parse_instruction(input: &str) -> (result: Result<
    (&str, AssemblerInstruction),
    AssemblerError,
>)
    ensures
        agrees(result, instruction(input@), input@),
{
    match parse_instruction_combined(input) {
        Ok(found) => Ok(found),
        Err(_) => parse_directive(input),
    }
}

/// The operands that are read are registers and integers, each stands
/// behind another or first, and reading them lengthens no text.
pub proof fn lemma_operand_list(s: Seq<char>, integers_only: bool)
    ensures
        is_operand_field(operand_list(s, integers_only).first),
        is_operand_field(operand_list(s, integers_only).second),
        is_operand_field(operand_list(s, integers_only).third),
        operand_list(s, integers_only).second is Some ==> operand_list(
            s,
            integers_only,
        ).first is Some,
        operand_list(s, integers_only).third is Some ==> operand_list(
            s,
            integers_only,
        ).second is Some,
        operand_list(s, integers_only).rest.len() <= s.len(),
{
    let start = skip_ws(s);
    lemma_run_len_bound(s, CharClass::Whitespace);
    match operand_slot(start, integers_only) {
        None => {},
        Some((first, after)) => {
            lemma_run_len_bound(start.skip(1), CharClass::Digit);
            let start = skip_ws(after);
            lemma_run_len_bound(after, CharClass::Whitespace);
            match operand_slot(start, integers_only) {
                None => {},
                Some((second, after)) => {
                    lemma_run_len_bound(start.skip(1), CharClass::Digit);
                    let start = skip_ws(after);
                    lemma_run_len_bound(after, CharClass::Whitespace);
                    match operand_slot(start, integers_only) {
                        None => {},
                        Some((third, after)) => {
                            lemma_run_len_bound(start.skip(1), CharClass::Digit);
                            lemma_run_len_bound(after, CharClass::Whitespace);
                        },
                    }
                },
            }
        },
    }
}

/// An instruction that is read from a text is well formed, and the text
/// behind it is shorter than the text it was read from.
pub proof fn lemma_instruction_is_well_formed(s: Seq<char>)
    ensures
        instruction(s) matches Some((found, rest)) ==> found.well_formed() && rest.len()
            < s.len(),
{
    lemma_run_len_bound(s, CharClass::Alphanumeric);
    match instruction_combined(s) {
        Some(_) => {
            let start = match label_declaration_token(s) {
                Some((_, after)) => after,
                None => s,
            };
            if label_declaration_token(s) is Some {
                let n = run_len(s, CharClass::Alphanumeric) as int;
                lemma_run_len_bound(s.skip(n + 1), CharClass::Whitespace);
            }
            lemma_run_len_bound(start, CharClass::Alphabetic);
            match opcode_token(start) {
                Some((_, after)) => {
                    lemma_operand_list(after, false);
                },
                None => {},
            }
        },
        None => {
            if directive_instruction(s) is Some {
                lemma_run_len_bound(s.skip(1), CharClass::Alphabetic);
                match directive_token(s) {
                    Some((_, after)) => {
                        lemma_operand_list(after, true);
                    },
                    None => {},
                }
            }
        },
    }
}

/// The bytes of an instruction are one for the opcode and, for each operand,
/// one if it is a register and two if it is an integer.
pub proof fn lemma_encoded_length(instruction: InstructionView)
    requires
        instruction.bytes() is Some,
    ensures
        instruction.bytes()->0.len() == 1 + operand_width(instruction.operand1) + operand_width(
            instruction.operand2,
        ) + operand_width(instruction.operand3),
{
}

/// An instruction with an opcode that is read from a text has bytes: one for
/// the opcode and, for each operand, one if it is a register and two if it is
/// an integer. An instruction with a directive has none.
pub proof fn lemma_parsed_instruction_has_bytes(s: Seq<char>)
    ensures
        instruction_combined(s) matches Some((found, _)) ==> found.bytes() matches Some(bytes)
            && bytes.len() == 1 + operand_width(found.operand1) + operand_width(found.operand2)
            + operand_width(found.operand3),
        directive_instruction(s) matches Some((found, _)) ==> found.bytes() is None,
{
    match instruction_combined(s) {
        Some((found, _)) => {
            lemma_instruction_is_well_formed(s);
            lemma_encoded_length(found);
        },
        None => {},
    }
}

} // verus!
