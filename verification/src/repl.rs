//! The decisions of the interactive shell: what a line that the user typed
//! does to the machine, and what the shell is to do next. Reading lines and
//! printing are left to the program around this library.

use crate::assembler::scan::strip_char;
use crate::assembler::{assemble, assembled, AssemblerError, ErrorView};
use crate::instruction::same_text;
use crate::vm::{VmState, VM};
use vstd::prelude::*;
use vstd::string::*;

verus! {

/// The shell: the lines typed so far, and the machine they act on.
#[derive(Debug)]
pub struct Repl {
    pub command_buffer: Vec<String>,
    pub vm: VM,
}

/// The shell as a mathematical value.
pub struct ReplState {
    pub history: Seq<Seq<char>>,
    pub vm: VmState,
}

impl View for Repl {
    type V = ReplState;

    open spec fn view(&self) -> ReplState {
        ReplState { history: self.command_buffer@.map_values(|line: String| line@), vm: self.vm@ }
    }
}

/// What the program around the shell is to do after a line.
#[derive(Debug, PartialEq)]
pub enum Action {
    /// Leave the program.
    Quit,
    /// Show the lines typed so far.
    ShowHistory,
    /// Show the bytes of the program in the machine.
    ShowProgram,
    /// Show the registers of the machine.
    ShowRegisters,
    /// Ask for a file, read it and hand its text to `load_program`.
    LoadFile,
    /// Say that the program in the machine was cleared.
    Cleared,
    /// Nothing: the line was assembled, and one instruction was executed.
    Executed,
    /// Say that the line was not assembled, and why.
    Rejected { error: AssemblerError },
}

/// An action as a mathematical value.
pub enum ActionView {
    Quit,
    ShowHistory,
    ShowProgram,
    ShowRegisters,
    LoadFile,
    Cleared,
    Executed,
    Rejected { error: ErrorView },
}

impl View for Action {
    type V = ActionView;

    open spec fn view(&self) -> ActionView {
        match self {
            Action::Quit => ActionView::Quit,
            Action::ShowHistory => ActionView::ShowHistory,
            Action::ShowProgram => ActionView::ShowProgram,
            Action::ShowRegisters => ActionView::ShowRegisters,
            Action::LoadFile => ActionView::LoadFile,
            Action::Cleared => ActionView::Cleared,
            Action::Executed => ActionView::Executed,
            Action::Rejected { error } => ActionView::Rejected { error: error@ },
        }
    }
}

/// What a command does to the machine, and the action that answers it. The
/// commands of the shell start with a dot; `.clear` empties the program of
/// the machine and the others leave the machine as it is. Any other line is
/// assembly text: its bytecode is appended to the program and one
/// instruction is executed, or it has no bytecode and nothing happens.
pub open spec fn answer(vm: VmState, command: Seq<char>) -> (VmState, ActionView) {
    if command == ".quit"@ {
        (vm, ActionView::Quit)
    } else if command == ".history"@ {
        (vm, ActionView::ShowHistory)
    } else if command == ".program"@ {
        (vm, ActionView::ShowProgram)
    } else if command == ".register"@ {
        (vm, ActionView::ShowRegisters)
    } else if command == ".load_file"@ {
        (vm, ActionView::LoadFile)
    } else if command == ".clear"@ {
        (VmState { program: Seq::empty(), ..vm }, ActionView::Cleared)
    } else {
        match assembled(command) {
            Ok(bytes) => (
                (VmState { program: vm.program + bytes, ..vm }).step().next,
                ActionView::Executed,
            ),
            Err(error) => (vm, ActionView::Rejected { error }),
        }
    }
}

/// A line without the whitespace around it, as `str::trim` finds it.
pub uninterp spec fn trimmed(line: Seq<char>) -> Seq<char>;

/// `str::trim`: the line without the whitespace at its start and at its end.
#[verifier::external_body]
fn trim<'a>(line: &'a str) -> (command: &'a str)
    ensures
        command@ == trimmed(line@),
{
    line.trim()
}

/// The place of the first space of a text, or its length if it has none.
pub open spec fn first_space(s: Seq<char>) -> nat
    decreases s.len(),
{
    if s.len() == 0 || s[0] == ' ' {
        0
    } else {
        1 + first_space(s.skip(1))
    }
}

/// The value of a hexadecimal digit, in either case; no other character has
/// one.
pub open spec fn hex_digit_value(c: char) -> Option<nat> {
    if '0' <= c <= '9' {
        Some((c as nat - '0' as nat) as nat)
    } else if 'a' <= c <= 'f' {
        Some((10 + c as nat - 'a' as nat) as nat)
    } else if 'A' <= c <= 'F' {
        Some((10 + c as nat - 'A' as nat) as nat)
    } else {
        None
    }
}

/// The number that a text of hexadecimal digits denotes.
pub open spec fn hex_value(digits: Seq<char>) -> nat
    decreases digits.len(),
{
    if digits.len() == 0 {
        0
    } else {
        hex_value(digits.drop_last()) * 16 + match hex_digit_value(digits.last()) {
            Some(value) => value,
            None => 0,
        }
    }
}

/// Whether a text is a hexadecimal number: one digit or more and nothing
/// else.
pub open spec fn is_hexadecimal(s: Seq<char>) -> bool {
    s.len() > 0 && forall|i: int| 0 <= i < s.len() ==> hex_digit_value(#[trigger] s[i]) is Some
}

/// A text without the plus sign that it may start with.
pub open spec fn unsigned(s: Seq<char>) -> Seq<char> {
    if s.len() > 0 && s[0] == '+' {
        s.skip(1)
    } else {
        s
    }
}

/// The byte that a text denotes in hexadecimal: a hexadecimal number of at
/// most 255, with a plus sign in front of it or without.
pub open spec fn hex_byte(s: Seq<char>) -> Option<u8> {
    if is_hexadecimal(unsigned(s)) && hex_value(unsigned(s)) <= u8::MAX {
        Some(hex_value(unsigned(s)) as u8)
    } else {
        None
    }
}

/// The bytes that a text denotes: the texts between its spaces, each a byte
/// in hexadecimal. Where one of them is no byte, the error is its place
/// among them, counted from `count`.
pub open spec fn hex_bytes(s: Seq<char>, count: nat) -> Result<Seq<u8>, nat>
    decreases s.len(),
{
    let end = first_space(s) as int;
    match hex_byte(s.take(end)) {
        Some(byte) => if end < s.len() {
            match hex_bytes(s.skip(end + 1), count + 1) {
                Ok(others) => Ok(seq![byte] + others),
                Err(place) => Err(place),
            }
        } else {
            Ok(seq![byte])
        },
        None => Err(count),
    }
}

/// The first space of a text is where a space stands with none before it.
pub proof fn lemma_first_space(s: Seq<char>, place: nat)
    requires
        place <= s.len(),
        forall|i: int| 0 <= i < place ==> s[i] != ' ',
        place < s.len() ==> s[place as int] == ' ',
    ensures
        first_space(s) == place,
    decreases place,
{
    if place > 0 {
        assert(s[0] != ' ');
        lemma_first_space(s.skip(1), (place - 1) as nat);
    }
}

/// Why a text does not denote bytes in hexadecimal: which of the texts
/// between its spaces, counted from zero, is no byte.
#[derive(Debug, PartialEq, Eq, Clone, Copy, Structural)]
pub struct HexError {
    pub place: usize,
}

/// Splits a text at its first space: what stands before it, and what stands
/// behind it if there is a space.
fn split_at_space<'a>(text: &'a str) -> (parts: (&'a str, Option<&'a str>))
    ensures
        parts.0@ == text@.take(first_space(text@) as int),
        match parts.1 {
            Some(tail) => first_space(text@) < text@.len() && tail@ == text@.skip(
                first_space(text@) as int + 1,
            ),
            None => first_space(text@) == text@.len(),
        },
{
    let length = text.unicode_len();
    let mut place: usize = length;
    let mut seen: usize = 0;
    for c in it: text.chars()
        invariant
            it.seq() == text@,
            length == text@.len(),
            seen == it.index(),
            place == length ==> forall|i: int| 0 <= i < seen ==> text@[i] != ' ',
            place != length ==> place < seen && text@[place as int] == ' ' && forall|i: int|
                0 <= i < place ==> text@[i] != ' ',
    {
        if place == length && c == ' ' {
            place = seen;
        }
        seen += 1;
    }
    proof {
        lemma_first_space(text@, place as nat);
    }
    let head = text.substring_char(0, place);
    assert(head@ =~= text@.take(place as int));
    if place < length {
        let tail = text.substring_char(place + 1, length);
        assert(tail@ =~= text@.skip(place + 1));
        (head, Some(tail))
    } else {
        (head, None)
    }
}

/// The value of a hexadecimal digit.
fn hex_digit_of(c: char) -> (value: Option<u32>)
    ensures
        match value {
            Some(value) => hex_digit_value(c) == Some(value as nat),
            None => hex_digit_value(c) is None,
        },
{
    if c >= '0' && c <= '9' {
        Some(c as u32 - '0' as u32)
    } else if c >= 'a' && c <= 'f' {
        Some(10 + (c as u32 - 'a' as u32))
    } else if c >= 'A' && c <= 'F' {
        Some(10 + (c as u32 - 'A' as u32))
    } else {
        None
    }
}

/// The byte that a text denotes in hexadecimal, if it denotes one.
pub fn parse_hex_byte(text: &str) -> (byte: Option<u8>)
    ensures
        byte == hex_byte(text@),
{
    let digits = match strip_char(text, '+') {
        Some(rest) => rest,
        None => text,
    };
    let mut value: u32 = 0;
    let mut fits = true;
    let mut valid = true;
    let mut empty = true;
    for c in it: digits.chars()
        invariant
            it.seq() == digits@,
            value <= u8::MAX,
            empty <==> it.index() == 0,
            valid <==> forall|i: int|
                0 <= i < it.index() ==> hex_digit_value(#[trigger] digits@[i]) is Some,
            valid && fits ==> value == hex_value(digits@.take(it.index() as int)),
            valid && !fits ==> hex_value(digits@.take(it.index() as int)) > u8::MAX,
    {
        proof {
            assert(digits@.take(it.index() + 1).drop_last() =~= digits@.take(it.index() as int));
            assert(digits@.take(it.index() + 1).last() == c);
        }
        empty = false;
        match hex_digit_of(c) {
            Some(digit) => {
                if fits {
                    let next = value * 16 + digit;
                    if next > 255 {
                        fits = false;
                    } else {
                        value = next;
                    }
                }
            },
            None => {
                valid = false;
            },
        }
    }
    proof {
        assert(digits@.take(digits@.len() as int) =~= digits@);
    }
    if valid && fits && !empty {
        Some(value as u8)
    } else {
        None
    }
}

/// The bytes of a text of which some were read already.
pub open spec fn preceded(done: Seq<u8>, others: Result<Seq<u8>, nat>) -> Result<Seq<u8>, nat> {
    match others {
        Ok(others) => Ok(done + others),
        Err(place) => Err(place),
    }
}

impl Repl {
    /// A shell with a new machine and no lines typed.
    pub fn new() -> (repl: Repl)
        ensures
            repl@.history == Seq::<Seq<char>>::empty(),
            repl@.vm == VmState::initial(),
    {
        let repl = Repl { vm: VM::new(), command_buffer: Vec::new() };
        assert(repl@.history =~= Seq::<Seq<char>>::empty());
        repl
    }

    /// Takes a line as the user typed it: removes the whitespace around it
    /// and handles what is left as a command.
    pub fn handle_line(&mut self, line: &str) -> (action: Action)
        ensures
            final(self)@.history == old(self)@.history.push(trimmed(line@)),
            (final(self)@.vm, action@) == answer(old(self)@.vm, trimmed(line@)),
    {
        self.handle_command(trim(line))
    }

    /// Records a command among the lines typed, changes the machine as the
    /// command says, and answers with what is to be done next.
    pub fn handle_command(&mut self, command: &str) -> (action: Action)
        ensures
            final(self)@.history == old(self)@.history.push(command@),
            (final(self)@.vm, action@) == answer(old(self)@.vm, command@),
    {
        let line = command.to_owned();
        assert(self.command_buffer@.push(line).map_values(|line: String| line@)
            =~= old(self)@.history.push(command@));
        self.command_buffer.push(line);
        if same_text(command, ".quit") {
            Action::Quit
        } else if same_text(command, ".history") {
            Action::ShowHistory
        } else if same_text(command, ".program") {
            Action::ShowProgram
        } else if same_text(command, ".register") {
            Action::ShowRegisters
        } else if same_text(command, ".load_file") {
            Action::LoadFile
        } else if same_text(command, ".clear") {
            self.handle_clear();
            Action::Cleared
        } else {
            match self.load_program(command) {
                Ok(_) => {
                    self.vm.run_once();
                    Action::Executed
                },
                Err(error) => Action::Rejected { error },
            }
        }
    }

    /// Reads a text as bytes in hexadecimal with single spaces between them.
    pub fn parse_hex(&mut self, i: &str) -> (result: Result<Vec<u8>, HexError>)
        ensures
            final(self)@ == old(self)@,
            match result {
                Ok(bytes) => hex_bytes(i@, 0) == Ok::<_, nat>(bytes@),
                Err(error) => hex_bytes(i@, 0) == Err::<Seq<u8>, _>(error.place as nat),
            },
    {
        let mut results: Vec<u8> = Vec::new();
        let mut rest = i;
        let mut place: usize = 0;
        assert(hex_bytes(i@, 0) == preceded(results@, hex_bytes(rest@, place as nat))) by {
            if hex_bytes(i@, 0) is Ok {
                assert(results@ + hex_bytes(i@, 0)->Ok_0 =~= hex_bytes(i@, 0)->Ok_0);
            }
        }
        loop
            invariant
                place == results@.len(),
                hex_bytes(i@, 0) == preceded(results@, hex_bytes(rest@, place as nat)),
            decreases rest@.len(),
        {
            let (hex_string, tail) = split_at_space(rest);
            let byte = match parse_hex_byte(hex_string) {
                Some(byte) => byte,
                None => {
                    return Err(HexError { place });
                },
            };
            proof {
                match hex_bytes(rest@.skip(first_space(rest@) as int + 1), (place + 1) as nat) {
                    Ok(others) => {
                        assert(results@.push(byte) + others =~= results@ + (seq![byte] + others));
                    },
                    Err(_) => {},
                }
                assert(results@.push(byte) =~= results@ + seq![byte]);
            }
            results.push(byte);
            match tail {
                Some(tail) => {
                    rest = tail;
                    place = results.len();
                },
                None => {
                    return Ok(results);
                },
            }
        }
    }

    /// Empties the program of the machine. Nothing else changes.
    pub fn handle_clear(&mut self)
        ensures
            final(self)@ == (ReplState {
                vm: VmState { program: Seq::empty(), ..old(self)@.vm },
                ..old(self)@
            }),
    {
        self.vm.program = Vec::new();
    }

    /// Assembles a text and appends its bytecode to the program of the
    /// machine. Where the text has no bytecode, nothing changes.
    pub fn load_program(&mut self, source: &str) -> (result: Result<(), AssemblerError>)
        ensures
            final(self)@.history == old(self)@.history,
            match result {
                Ok(_) => assembled(source@) matches Ok(bytes) && final(self)@.vm == (VmState {
                    program: old(self)@.vm.program + bytes,
                    ..old(self)@.vm
                }),
                Err(error) => assembled(source@) == Err::<Seq<u8>, _>(error@) && final(self)@.vm
                    == old(self)@.vm,
            },
    {
        match assemble(source) {
            Ok(bytes) => {
                self.vm.append_bytes(bytes.as_slice());
                Ok(())
            },
            Err(error) => Err(error),
        }
    }
}

} // verus!
