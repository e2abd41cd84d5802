//! The virtual machine: a register file, a program buffer and the
//! fetch-decode-execute cycle over it.

use crate::instruction::Opcode;
use vstd::prelude::*;
use vstd::wrapping::i32_specs;

verus! {

/// The number of registers of the machine.
pub const REGISTER_COUNT: usize = 32;

/// Why the machine stopped, when it did not stop at a `hlt`.
#[derive(Debug, PartialEq, Eq, Clone, Copy, Structural)]
pub enum VmError {
    /// The byte at the program counter encodes no operation.
    IllegalOpcode,
    /// The program ends in the middle of an instruction, or a relative jump
    /// leaves the range of the program counter.
    BadProgramCounter,
    /// An operand names a register that the machine does not have.
    RegisterOutOfRange,
    /// The divisor of a `div` is zero.
    DivideByZero,
}

/// The machine. Every combination of field values is a state of the machine.
#[derive(Debug)]
pub struct VM {
    pub registers: [i32; 32],
    pub pc: usize,
    pub program: Vec<u8>,
    pub remainder: u32,
    pub equal_flag: bool,
    /// The fault that last ended execution, if one ever did.
    pub last_error: Option<VmError>,
}

/// The state of a machine as a mathematical value.
pub struct VmState {
    pub registers: Seq<i32>,
    pub pc: nat,
    pub program: Seq<u8>,
    pub remainder: u32,
    pub equal_flag: bool,
    pub last_error: Option<VmError>,
}

/// What one step of the machine yields: the state after it, and whether
/// execution goes on.
pub struct Step {
    pub next: VmState,
    pub proceed: bool,
}

impl View for VM {
    type V = VmState;

    open spec fn view(&self) -> VmState {
        VmState {
            registers: self.registers@,
            pc: self.pc as nat,
            program: self.program@,
            remainder: self.remainder,
            equal_flag: self.equal_flag,
            last_error: self.last_error,
        }
    }
}

/// The number of operand bytes that follow the opcode byte of an instruction.
pub open spec fn operand_len(op: Opcode) -> nat {
    match op {
        Opcode::HLT | Opcode::IGL(_) => 0,
        Opcode::JMP | Opcode::JMPF | Opcode::JMPB | Opcode::JEQ | Opcode::JNEQ | Opcode::ALOC => 1,
        _ => 3,
    }
}

/// The number of bytes of an instruction, its opcode byte included.
pub open spec fn width(op: Opcode) -> nat {
    1 + operand_len(op)
}

/// Whether an operand byte names a register of the machine.
pub open spec fn is_register(index: u8) -> bool {
    index < REGISTER_COUNT
}

/// The 16-bit immediate that two operand bytes hold, high byte first.
pub open spec fn immediate(high: u8, low: u8) -> int {
    high * 256 + low
}

/// The address that a register value stands for in a jump: the value itself,
/// or for a negative value its two's complement at the width of an address.
pub open spec fn address(value: i32) -> nat {
    if value >= 0 {
        value as nat
    } else {
        (usize::MAX + 1 + value) as nat
    }
}

/// The distance of an integer from zero.
pub open spec fn magnitude(v: int) -> int {
    if v >= 0 {
        v
    } else {
        -v
    }
}

/// Division of integers that rounds toward zero.
pub open spec fn truncating_div(x: int, y: int) -> int
    recommends
        y != 0,
{
    if (x < 0) == (y < 0) {
        magnitude(x) / magnitude(y)
    } else {
        -(magnitude(x) / magnitude(y))
    }
}

/// What the division that rounds toward zero leaves: a number with the sign
/// of the dividend.
pub open spec fn truncating_rem(x: int, y: int) -> int
    recommends
        y != 0,
{
    if x >= 0 {
        magnitude(x) % magnitude(y)
    } else {
        -(magnitude(x) % magnitude(y))
    }
}

/// The quotient that `div` stores. The one quotient that does not fit,
/// that of the least value by -1, wraps to the least value.
pub open spec fn quotient(x: i32, y: i32) -> i32
    recommends
        y != 0,
{
    if x == i32::MIN && y == -1 {
        i32::MIN
    } else {
        truncating_div(x as int, y as int) as i32
    }
}

/// The remainder that `div` stores: a negative one as its two's complement
/// in 32 bits.
pub open spec fn remainder_bits(x: i32, y: i32) -> u32
    recommends
        y != 0,
{
    let r = truncating_rem(x as int, y as int);
    if r >= 0 {
        r as u32
    } else {
        (r + 0x1_0000_0000) as u32
    }
}

/// What a comparison opcode stores in the equality flag.
pub open spec fn compare(op: Opcode, x: i32, y: i32) -> bool {
    match op {
        Opcode::EQ => x == y,
        Opcode::NEQ => x != y,
        Opcode::GT => x > y,
        Opcode::LT => x < y,
        Opcode::GTQ => x >= y,
        _ => x <= y,
    }
}

/// What an arithmetic opcode other than `div` stores, wrapping at 32 bits.
pub open spec fn arithmetic(op: Opcode, x: i32, y: i32) -> i32 {
    match op {
        Opcode::ADD => i32_specs::wrapping_add(x, y),
        Opcode::SUB => i32_specs::wrapping_sub(x, y),
        _ => i32_specs::wrapping_mul(x, y),
    }
}

impl VmState {
    /// The state of a machine that has just been made.
    pub open spec fn initial() -> VmState {
        VmState {
            registers: Seq::new(REGISTER_COUNT as nat, |i: int| 0i32),
            pc: 0,
            program: Seq::empty(),
            remainder: 0,
            equal_flag: false,
            last_error: None,
        }
    }

    /// What holds of the state of every machine: it has all its registers,
    /// and its program counter and the length of its program are addresses.
    pub open spec fn well_formed(self) -> bool {
        &&& self.registers.len() == REGISTER_COUNT
        &&& self.pc <= usize::MAX
        &&& self.program.len() <= usize::MAX
    }

    /// The value of the register that an operand byte names.
    pub open spec fn register(self, index: u8) -> i32 {
        self.registers[index as int]
    }

    /// This state with one register replaced.
    pub open spec fn with_register(self, index: u8, value: i32) -> VmState {
        VmState { registers: self.registers.update(index as int, value), ..self }
    }

    /// This state with the program counter replaced.
    pub open spec fn at(self, pc: nat) -> VmState {
        VmState { pc, ..self }
    }

    /// The operand byte at a distance from the program counter.
    pub open spec fn operand(self, offset: nat) -> u8 {
        self.program[(self.pc + offset) as int]
    }

    /// The opcode at the program counter.
    pub open spec fn opcode(self) -> Opcode
        recommends
            self.pc < self.program.len(),
    {
        Opcode::from_byte(self.program[self.pc as int])
    }

    /// The step that ends execution with a fault.
    pub open spec fn fault(self, error: VmError) -> Step {
        Step { next: VmState { last_error: Some(error), ..self }, proceed: false }
    }

    /// The step that ends execution at a `hlt`.
    pub open spec fn halt(self) -> Step {
        Step { next: self, proceed: false }
    }

    /// The step after which execution goes on.
    pub open spec fn go_on(self) -> Step {
        Step { next: self, proceed: true }
    }

    /// The effect of an instruction on the state in which the program counter
    /// stands at its first operand byte and all its operand bytes are there.
    /// The operand bytes are consumed before anything else happens, so a
    /// fault leaves the program counter behind the instruction.
    pub open spec fn execute(self, op: Opcode) -> Step
        recommends
            self.pc + operand_len(op) <= self.program.len(),
    {
        let a = self.operand(0);
        let b = self.operand(1);
        let c = self.operand(2);
        let s = self.at(self.pc + operand_len(op));
        match op {
            Opcode::HLT => s.halt(),
            Opcode::IGL(_) => s.fault(VmError::IllegalOpcode),
            Opcode::ALOC => s.go_on(),
            Opcode::LOAD => if is_register(a) {
                s.with_register(a, immediate(b, c) as i32).go_on()
            } else {
                s.fault(VmError::RegisterOutOfRange)
            },
            Opcode::ADD | Opcode::SUB | Opcode::MUL => if is_register(a) && is_register(b)
                && is_register(c) {
                s.with_register(c, arithmetic(op, s.register(a), s.register(b))).go_on()
            } else {
                s.fault(VmError::RegisterOutOfRange)
            },
            Opcode::DIV => if !(is_register(a) && is_register(b) && is_register(c)) {
                s.fault(VmError::RegisterOutOfRange)
            } else if s.register(b) == 0 {
                s.fault(VmError::DivideByZero)
            } else {
                VmState {
                    remainder: remainder_bits(s.register(a), s.register(b)),
                    ..s.with_register(c, quotient(s.register(a), s.register(b)))
                }.go_on()
            },
            Opcode::JMP => if is_register(a) {
                s.at(address(s.register(a))).go_on()
            } else {
                s.fault(VmError::RegisterOutOfRange)
            },
            Opcode::JMPF => if !is_register(a) {
                s.fault(VmError::RegisterOutOfRange)
            } else if s.pc + address(s.register(a)) > usize::MAX {
                s.fault(VmError::BadProgramCounter)
            } else {
                s.at(s.pc + address(s.register(a))).go_on()
            },
            Opcode::JMPB => if !is_register(a) {
                s.fault(VmError::RegisterOutOfRange)
            } else if s.pc < address(s.register(a)) {
                s.fault(VmError::BadProgramCounter)
            } else {
                s.at((s.pc - address(s.register(a))) as nat).go_on()
            },
            Opcode::JEQ => if !is_register(a) {
                s.fault(VmError::RegisterOutOfRange)
            } else if s.equal_flag {
                s.at(address(s.register(a))).go_on()
            } else {
                s.go_on()
            },
            Opcode::JNEQ => if !is_register(a) {
                s.fault(VmError::RegisterOutOfRange)
            } else if !s.equal_flag {
                s.at(address(s.register(a))).go_on()
            } else {
                s.go_on()
            },
            // the six comparisons; their third operand byte is not used
            _ => if is_register(a) && is_register(b) {
                VmState {
                    equal_flag: compare(op, s.register(a), s.register(b)),
                    ..s
                }.go_on()
            } else {
                s.fault(VmError::RegisterOutOfRange)
            },
        }
    }

    /// One step of the machine. With the program counter at or behind the end
    /// of the program nothing changes and execution ends. Otherwise the
    /// opcode byte is consumed; if the program ends before the last operand
    /// byte of the instruction, that is a fault, and otherwise the
    /// instruction takes its effect.
    pub open spec fn step(self) -> Step {
        if self.pc >= self.program.len() {
            Step { next: self, proceed: false }
        } else {
            let fetched = self.at(self.pc + 1);
            if fetched.pc + operand_len(self.opcode()) > self.program.len() {
                fetched.fault(VmError::BadProgramCounter)
            } else {
                fetched.execute(self.opcode())
            }
        }
    }

    /// Whether execution from this state ends with the first step or with
    /// one of the `steps` steps after it.
    pub open spec fn halts_within(self, steps: nat) -> bool
        decreases steps,
    {
        !self.step().proceed || (steps > 0 && self.step().next.halts_within((steps - 1) as nat))
    }

    /// Whether execution from this state ends at all.
    pub open spec fn halts(self) -> bool {
        exists|steps: nat| self.halts_within(steps)
    }

    /// The state behind the step that ends execution, or behind `steps + 1`
    /// steps if execution goes on that long.
    pub open spec fn after(self, steps: nat) -> VmState
        decreases steps,
    {
        if !self.step().proceed || steps == 0 {
            self.step().next
        } else {
            self.step().next.after((steps - 1) as nat)
        }
    }

    /// The state in which execution from this state ends, if it ends.
    pub open spec fn run(self) -> VmState {
        self.after(choose|steps: nat| self.halts_within(steps))
    }
}

/// Whether an opcode may set the program counter to a computed address.
pub open spec fn is_jump(op: Opcode) -> bool {
    op is JMP || op is JMPF || op is JMPB || op is JEQ || op is JNEQ
}

/// The address that the jump instruction at the program counter computes:
/// the address in its register for the absolute jumps, that many bytes
/// behind the instruction for `jmpf`, and before that place for `jmpb`.
pub open spec fn jump_target(s: VmState) -> int
    recommends
        s.pc + 2 <= s.program.len(),
        is_jump(s.opcode()),
{
    let distance = address(s.register(s.program[s.pc + 1 as int])) as int;
    match s.opcode() {
        Opcode::JMPF => s.pc + 2 + distance,
        Opcode::JMPB => s.pc + 2 - distance,
        _ => distance,
    }
}

/// Where execution ends does not depend on how many steps it is allowed,
/// once it is allowed enough.
pub proof fn lemma_end_is_determined(s: VmState, m: nat, n: nat)
    requires
        s.halts_within(m),
        s.halts_within(n),
    ensures
        s.after(m) == s.after(n),
    decreases m,
{
    if s.step().proceed {
        lemma_end_is_determined(s.step().next, (m - 1) as nat, (n - 1) as nat);
    }
}

/// Execution that ends within some number of steps ends in the state that
/// `run` names.
pub proof fn lemma_run_ends(s: VmState, n: nat)
    requires
        s.halts_within(n),
    ensures
        s.halts(),
        s.run() == s.after(n),
{
    let k = choose|steps: nat| s.halts_within(steps);
    lemma_end_is_determined(s, k, n);
}

/// A step with the program counter at or behind the end of the program
/// changes nothing and ends execution. Any other step, on an instruction
/// whose operand bytes are all there, leaves the program counter behind the
/// instruction or, if the instruction is a jump, at the address it computes.
pub proof fn lemma_step_program_counter(s: VmState)
    requires
        s.pc < s.program.len() ==> s.pc + width(s.opcode()) <= s.program.len(),
    ensures
        s.pc >= s.program.len() ==> s.step() == (Step { next: s, proceed: false }),
        s.pc < s.program.len() ==> s.step().next.pc == s.pc + width(s.opcode()) || (is_jump(
            s.opcode(),
        ) && s.step().next.pc == jump_target(s)),
{
}

/// A step changes neither the program nor the number of registers, and
/// leaves the program counter and the length of the program addresses.
pub proof fn lemma_step_keeps_program(s: VmState)
    requires
        s.well_formed(),
    ensures
        s.step().next.program == s.program,
        s.step().next.well_formed(),
{
}

/// Only `div` writes the remainder, only the comparisons write the equality
/// flag, and an instruction writes at most one register.
pub proof fn lemma_step_frame(s: VmState)
    requires
        s.well_formed(),
        s.pc < s.program.len(),
    ensures
        !(s.opcode() is DIV) ==> s.step().next.remainder == s.remainder,
        !is_comparison(s.opcode()) ==> s.step().next.equal_flag == s.equal_flag,
        forall|i: int, j: int|
            0 <= i < j < REGISTER_COUNT ==> s.step().next.registers[i] == s.registers[i]
                || s.step().next.registers[j] == s.registers[j],
{
}

/// Whether an opcode is one of the six comparisons.
pub open spec fn is_comparison(op: Opcode) -> bool {
    op is EQ || op is NEQ || op is GT || op is LT || op is GTQ || op is LTQ
}

impl VM {
    /// A machine with all registers zero, an empty program, the program
    /// counter at its start, no remainder, the equality flag down and no
    /// fault on record.
    pub fn new() -> (vm: VM)
        ensures
            vm@ == VmState::initial(),
            vm@.well_formed(),
    {
        let vm = VM {
            registers: [0; 32],
            pc: 0,
            program: Vec::new(),
            remainder: 0,
            equal_flag: false,
            last_error: None,
        };
        assert(vm@.registers =~= VmState::initial().registers);
        vm
    }

    /// Appends one byte to the program. Nothing else changes.
    pub fn append_byte(&mut self, byte: u8)
        ensures
            final(self)@ == (VmState { program: old(self)@.program.push(byte), ..old(self)@ }),
    {
        self.program.push(byte);
    }

    /// Appends bytes to the program, in their order. Nothing else changes.
    pub fn append_bytes(&mut self, bytes: &[u8])
        ensures
            final(self)@ == (VmState { program: old(self)@.program + bytes@, ..old(self)@ }),
    {
        self.program.extend_from_slice(bytes);
        assert(self.program@ =~= old(self).program@ + bytes@);
    }

    /// Reads the opcode at the program counter and moves the counter behind it.
    fn decode_opcode(&mut self) -> (op: Opcode)
        requires
            old(self)@.pc < old(self)@.program.len(),
        ensures
            op == old(self)@.opcode(),
            final(self)@ == old(self)@.at(old(self)@.pc + 1),
    {
        assert(self.program@.len() == self.program.len());
        let op = Opcode::from(self.program[self.pc]);
        self.pc += 1;
        op
    }

    /// Reads the byte at the program counter and moves the counter behind it.
    fn next_8_bits(&mut self) -> (byte: u8)
        requires
            old(self)@.pc < old(self)@.program.len(),
        ensures
            byte == old(self)@.operand(0),
            final(self)@ == old(self)@.at(old(self)@.pc + 1),
    {
        assert(self.program@.len() == self.program.len());
        let result = self.program[self.pc];
        self.pc += 1;
        result
    }

    /// Reads the two bytes at the program counter as one number, high byte
    /// first, and moves the counter behind them.
    fn next_16_bits(&mut self) -> (value: u16)
        requires
            old(self)@.pc + 2 <= old(self)@.program.len(),
        ensures
            value == immediate(old(self)@.operand(0), old(self)@.operand(1)),
            final(self)@ == old(self)@.at(old(self)@.pc + 2),
    {
        assert(self.program@.len() == self.program.len());
        let high = self.program[self.pc] as u16;
        let low = self.program[self.pc + 1] as u16;
        self.pc += 2;
        high * 256 + low
    }

    /// Reads two operand bytes and hands out the values of the registers
    /// they name, or nothing if one of them names no register.
    fn read_next_2_registers(&mut self) -> (pair: Option<(i32, i32)>)
        requires
            old(self)@.pc + 2 <= old(self)@.program.len(),
        ensures
            final(self)@ == old(self)@.at(old(self)@.pc + 2),
            pair == (if is_register(old(self)@.operand(0)) && is_register(old(self)@.operand(1)) {
                Some(
                    (
                        old(self)@.register(old(self)@.operand(0)),
                        old(self)@.register(old(self)@.operand(1)),
                    ),
                )
            } else {
                None
            }),
    {
        let first = self.next_8_bits() as usize;
        let second = self.next_8_bits() as usize;
        if first < REGISTER_COUNT && second < REGISTER_COUNT {
            Some((self.registers[first], self.registers[second]))
        } else {
            None
        }
    }

    /// Reads one operand byte and hands out the value of the register it
    /// names, or nothing if it names no register.
    fn read_next_register(&mut self) -> (value: Option<i32>)
        requires
            old(self)@.pc < old(self)@.program.len(),
        ensures
            final(self)@ == old(self)@.at(old(self)@.pc + 1),
            value == (if is_register(old(self)@.operand(0)) {
                Some(old(self)@.register(old(self)@.operand(0)))
            } else {
                None
            }),
    {
        let index = self.next_8_bits() as usize;
        if index < REGISTER_COUNT {
            Some(self.registers[index])
        } else {
            None
        }
    }

    /// Records a fault and ends execution.
    fn fault(&mut self, error: VmError) -> (proceed: bool)
        ensures
            (Step { next: final(self)@, proceed }) == old(self)@.fault(error),
    {
        self.last_error = Some(error);
        false
    }


    /// Stores the result of an arithmetic instruction in the register that
    /// the operand byte names, if it names one.
    fn store(&mut self, target: u8, value: i32) -> (proceed: bool)
        ensures
            (Step { next: final(self)@, proceed }) == (if is_register(target) {
                old(self)@.with_register(target, value).go_on()
            } else {
                old(self)@.fault(VmError::RegisterOutOfRange)
            }),
    {
        if (target as usize) < REGISTER_COUNT {
            self.registers[target as usize] = value;
            true
        } else {
            self.fault(VmError::RegisterOutOfRange)
        }
    }

    fn handle_hlt(&self) -> (proceed: bool)
        ensures
            (Step { next: self@, proceed }) == self@.execute(Opcode::HLT),
    {
        false
    }

    fn handle_load(&mut self) -> (proceed: bool)
        requires
            old(self)@.pc + 3 <= old(self)@.program.len(),
        ensures
            (Step { next: final(self)@, proceed }) == old(self)@.execute(Opcode::LOAD),
    {
        let register = self.next_8_bits();
        let number = self.next_16_bits();
        self.store(register, number as i32)
    }

    fn handle_add(&mut self) -> (proceed: bool)
        requires
            old(self)@.pc + 3 <= old(self)@.program.len(),
        ensures
            (Step { next: final(self)@, proceed }) == old(self)@.execute(Opcode::ADD),
    {
        let pair = self.read_next_2_registers();
        let target = self.next_8_bits();
        match pair {
            Some((register1, register2)) => self.store(target, register1.wrapping_add(register2)),
            None => self.fault(VmError::RegisterOutOfRange),
        }
    }

    fn handle_sub(&mut self) -> (proceed: bool)
        requires
            old(self)@.pc + 3 <= old(self)@.program.len(),
        ensures
            (Step { next: final(self)@, proceed }) == old(self)@.execute(Opcode::SUB),
    {
        let pair = self.read_next_2_registers();
        let target = self.next_8_bits();
        match pair {
            Some((register1, register2)) => self.store(target, register1.wrapping_sub(register2)),
            None => self.fault(VmError::RegisterOutOfRange),
        }
    }

    fn handle_mul(&mut self) -> (proceed: bool)
        requires
            old(self)@.pc + 3 <= old(self)@.program.len(),
        ensures
            (Step { next: final(self)@, proceed }) == old(self)@.execute(Opcode::MUL),
    {
        let pair = self.read_next_2_registers();
        let target = self.next_8_bits();
        match pair {
            Some((register1, register2)) => self.store(target, register1.wrapping_mul(register2)),
            None => self.fault(VmError::RegisterOutOfRange),
        }
    }

    fn handle_div(&mut self) -> (proceed: bool)
        requires
            old(self)@.pc + 3 <= old(self)@.program.len(),
        ensures
            (Step { next: final(self)@, proceed }) == old(self)@.execute(Opcode::DIV),
    {
        let pair = self.read_next_2_registers();
        let target = self.next_8_bits();
        match pair {
            Some((register1, register2)) => {
                if (target as usize) >= REGISTER_COUNT {
                    self.fault(VmError::RegisterOutOfRange)
                } else if register2 == 0 {
                    self.fault(VmError::DivideByZero)
                } else {
                    let (result, remainder) = divide(register1, register2);
                    self.remainder = remainder;
                    self.store(target, result)
                }
            },
            None => self.fault(VmError::RegisterOutOfRange),
        }
    }

    fn handle_jmp(&mut self) -> (proceed: bool)
        requires
            old(self)@.pc < old(self)@.program.len(),
        ensures
            (Step { next: final(self)@, proceed }) == old(self)@.execute(Opcode::JMP),
    {
        match self.read_next_register() {
            Some(target) => {
                self.pc = address_of(target);
                true
            },
            None => self.fault(VmError::RegisterOutOfRange),
        }
    }

    fn handle_jmpf(&mut self) -> (proceed: bool)
        requires
            old(self)@.pc < old(self)@.program.len(),
        ensures
            (Step { next: final(self)@, proceed }) == old(self)@.execute(Opcode::JMPF),
    {
        match self.read_next_register() {
            Some(target) => match self.pc.checked_add(address_of(target)) {
                Some(pc) => {
                    self.pc = pc;
                    true
                },
                None => self.fault(VmError::BadProgramCounter),
            },
            None => self.fault(VmError::RegisterOutOfRange),
        }
    }

    fn handle_jmpb(&mut self) -> (proceed: bool)
        requires
            old(self)@.pc < old(self)@.program.len(),
        ensures
            (Step { next: final(self)@, proceed }) == old(self)@.execute(Opcode::JMPB),
    {
        match self.read_next_register() {
            Some(target) => match self.pc.checked_sub(address_of(target)) {
                Some(pc) => {
                    self.pc = pc;
                    true
                },
                None => self.fault(VmError::BadProgramCounter),
            },
            None => self.fault(VmError::RegisterOutOfRange),
        }
    }

    /// Sets the equality flag to the outcome of a comparison, if both
    /// registers were there, and passes over the byte that is not used.
    fn flag(&mut self, outcome: Option<bool>) -> (proceed: bool)
        requires
            old(self)@.pc < old(self)@.program.len(),
        ensures
            (Step { next: final(self)@, proceed }) == (match outcome {
                Some(value) => (VmState {
                    equal_flag: value,
                    ..old(self)@.at(old(self)@.pc + 1)
                }).go_on(),
                None => old(self)@.at(old(self)@.pc + 1).fault(VmError::RegisterOutOfRange),
            }),
    {
        self.next_8_bits();
        match outcome {
            Some(value) => {
                self.equal_flag = value;
                true
            },
            None => self.fault(VmError::RegisterOutOfRange),
        }
    }

    fn handle_eq(&mut self) -> (proceed: bool)
        requires
            old(self)@.pc + 3 <= old(self)@.program.len(),
        ensures
            (Step { next: final(self)@, proceed }) == old(self)@.execute(Opcode::EQ),
    {
        match self.read_next_2_registers() {
            Some((register1, register2)) => self.flag(Some(register1 == register2)),
            None => self.flag(None),
        }
    }

    fn handle_neq(&mut self) -> (proceed: bool)
        requires
            old(self)@.pc + 3 <= old(self)@.program.len(),
        ensures
            (Step { next: final(self)@, proceed }) == old(self)@.execute(Opcode::NEQ),
    {
        match self.read_next_2_registers() {
            Some((register1, register2)) => self.flag(Some(register1 != register2)),
            None => self.flag(None),
        }
    }

    fn handle_gt(&mut self) -> (proceed: bool)
        requires
            old(self)@.pc + 3 <= old(self)@.program.len(),
        ensures
            (Step { next: final(self)@, proceed }) == old(self)@.execute(Opcode::GT),
    {
        match self.read_next_2_registers() {
            Some((register1, register2)) => self.flag(Some(register1 > register2)),
            None => self.flag(None),
        }
    }

    fn handle_lt(&mut self) -> (proceed: bool)
        requires
            old(self)@.pc + 3 <= old(self)@.program.len(),
        ensures
            (Step { next: final(self)@, proceed }) == old(self)@.execute(Opcode::LT),
    {
        match self.read_next_2_registers() {
            Some((register1, register2)) => self.flag(Some(register1 < register2)),
            None => self.flag(None),
        }
    }

    fn handle_gtq(&mut self) -> (proceed: bool)
        requires
            old(self)@.pc + 3 <= old(self)@.program.len(),
        ensures
            (Step { next: final(self)@, proceed }) == old(self)@.execute(Opcode::GTQ),
    {
        match self.read_next_2_registers() {
            Some((register1, register2)) => self.flag(Some(register1 >= register2)),
            None => self.flag(None),
        }
    }

    fn handle_ltq(&mut self) -> (proceed: bool)
        requires
            old(self)@.pc + 3 <= old(self)@.program.len(),
        ensures
            (Step { next: final(self)@, proceed }) == old(self)@.execute(Opcode::LTQ),
    {
        match self.read_next_2_registers() {
            Some((register1, register2)) => self.flag(Some(register1 <= register2)),
            None => self.flag(None),
        }
    }

    fn handle_jeq(&mut self) -> (proceed: bool)
        requires
            old(self)@.pc < old(self)@.program.len(),
        ensures
            (Step { next: final(self)@, proceed }) == old(self)@.execute(Opcode::JEQ),
    {
        match self.read_next_register() {
            Some(target) => {
                if self.equal_flag {
                    self.pc = address_of(target);
                }
                true
            },
            None => self.fault(VmError::RegisterOutOfRange),
        }
    }

    fn handle_jneq(&mut self) -> (proceed: bool)
        requires
            old(self)@.pc < old(self)@.program.len(),
        ensures
            (Step { next: final(self)@, proceed }) == old(self)@.execute(Opcode::JNEQ),
    {
        match self.read_next_register() {
            Some(target) => {
                if !self.equal_flag {
                    self.pc = address_of(target);
                }
                true
            },
            None => self.fault(VmError::RegisterOutOfRange),
        }
    }

    fn handle_aloc(&mut self) -> (proceed: bool)
        requires
            old(self)@.pc < old(self)@.program.len(),
        ensures
            (Step { next: final(self)@, proceed }) == old(self)@.execute(Opcode::ALOC),
    {
        self.next_8_bits();
        true
    }

    /// Executes the instruction at the program counter and says whether
    /// execution goes on. It does not after a `hlt`, after a fault, which
    /// `last_error` then names, and with the program counter at or behind the
    /// end of the program, where nothing changes.
    pub fn step(&mut self) -> (proceed: bool)
        ensures
            (Step { next: final(self)@, proceed }) == old(self)@.step(),
    {
        if self.pc >= self.program.len() {
            return false;
        }
        let op = self.decode_opcode();
        if self.program.len() - self.pc < operand_count(op) {
            return self.fault(VmError::BadProgramCounter);
        }
        match op {
            Opcode::HLT => self.handle_hlt(),
            Opcode::LOAD => self.handle_load(),
            Opcode::ADD => self.handle_add(),
            Opcode::SUB => self.handle_sub(),
            Opcode::MUL => self.handle_mul(),
            Opcode::DIV => self.handle_div(),
            Opcode::JMP => self.handle_jmp(),
            Opcode::JMPF => self.handle_jmpf(),
            Opcode::JMPB => self.handle_jmpb(),
            Opcode::EQ => self.handle_eq(),
            Opcode::NEQ => self.handle_neq(),
            Opcode::GT => self.handle_gt(),
            Opcode::LT => self.handle_lt(),
            Opcode::GTQ => self.handle_gtq(),
            Opcode::LTQ => self.handle_ltq(),
            Opcode::JEQ => self.handle_jeq(),
            Opcode::JNEQ => self.handle_jneq(),
            Opcode::ALOC => self.handle_aloc(),
            Opcode::IGL(_) => self.fault(VmError::IllegalOpcode),
        }
    }

    /// Executes instructions until a step ends execution. The program must be
    /// one whose execution ends.
    pub fn run(&mut self)
        requires
            old(self)@.halts(),
        ensures
            final(self)@ == old(self)@.run(),
    {
        let ghost start = self@;
        let ghost limit = choose|steps: nat| start.halts_within(steps);
        let ghost mut fuel = limit;
        loop
            invariant_except_break
                self@.halts_within(fuel),
                self@.after(fuel) == start.after(limit),
            ensures
                self@ == start.after(limit),
            decreases fuel,
        {
            let proceed = self.step();
            if !proceed {
                break;
            }
            proof {
                fuel = (fuel - 1) as nat;
            }
        }
    }

    /// Executes one instruction.
    pub fn run_once(&mut self)
        ensures
            final(self)@ == old(self)@.step().next,
    {
        self.step();
    }
}

/// The number of operand bytes of an instruction.
fn operand_count(op: Opcode) -> (count: usize)
    ensures
        count == operand_len(op),
{
    match op {
        Opcode::HLT | Opcode::IGL(_) => 0,
        Opcode::JMP | Opcode::JMPF | Opcode::JMPB | Opcode::JEQ | Opcode::JNEQ | Opcode::ALOC => 1,
        _ => 3,
    }
}

/// The address that a register value stands for in a jump.
fn address_of(value: i32) -> (target: usize)
    ensures
        target == address(value),
{
    if value >= 0 {
        value as usize
    } else {
        usize::MAX - ((-(value + 1)) as usize)
    }
}

/// Division of a natural number by a positive one: the quotient and the
/// remainder make up the dividend, and the quotient is the dividend itself
/// only if that is zero or the divisor is one.
pub proof fn lemma_natural_division(x: int, y: int)
    requires
        x >= 0,
        y > 0,
    ensures
        0 <= x / y <= x,
        0 <= x % y < y,
        x == y * (x / y) + x % y,
        y > 1 && x > 0 ==> x / y < x,
{
    vstd::arithmetic::div_mod::lemma_fundamental_div_mod(x, y);
    vstd::arithmetic::div_mod::lemma_div_pos_is_pos(x, y);
    vstd::arithmetic::div_mod::lemma_mod_bound(x, y);
    let q = x / y;
    assert(y * q >= q) by (nonlinear_arith)
        requires
            y >= 1,
            q >= 0,
    ;
    if y > 1 && x > 0 {
        assert(y * q >= 2 * q) by (nonlinear_arith)
            requires
                y >= 2,
                q >= 0,
        ;
    }
}

/// The division that rounds toward zero divides: the quotient times the
/// divisor, and the remainder, make up the dividend.
pub proof fn lemma_truncating_division(x: int, y: int)
    requires
        y != 0,
    ensures
        x == y * truncating_div(x, y) + truncating_rem(x, y),
        magnitude(truncating_rem(x, y)) < magnitude(y),
        magnitude(truncating_div(x, y)) <= magnitude(x),
{
    let a = magnitude(x);
    let d = magnitude(y);
    let q = a / d;
    lemma_natural_division(a, d);
    assert(y * (-q) == -(y * q)) by (nonlinear_arith);
    assert((-y) * q == -(y * q)) by (nonlinear_arith);
}

/// The distance of a register value from zero.
fn magnitude_of(v: i32) -> (m: u32)
    ensures
        m == magnitude(v as int),
{
    if v >= 0 {
        v as u32
    } else {
        (-(v as i64)) as u32
    }
}

/// The quotient and the remainder that `div` stores.
fn divide(x: i32, y: i32) -> (result: (i32, u32))
    requires
        y != 0,
    ensures
        result.0 == quotient(x, y),
        result.1 == remainder_bits(x, y),
{
    let a = magnitude_of(x);
    let d = magnitude_of(y);
    let q = (a / d) as i64;
    let r = (a % d) as i64;
    proof {
        lemma_natural_division(a as int, d as int);
        if d == 1 {
            assert(a as int == 1 * (a as int / 1) + a as int % 1);
            assert(a / d == a);
        }
        assert(truncating_div(x as int, y as int) == if (x < 0) == (y < 0) {
            q as int
        } else {
            -(q as int)
        });
        assert(q <= a <= 0x8000_0000);
        assert(x == i32::MIN && y == -1 ==> q == 0x8000_0000);
        assert(q == 0x8000_0000 ==> x == i32::MIN && d == 1);
    }
    let signed_q = if (x < 0) == (y < 0) {
        q
    } else {
        -q
    };
    let signed_r = if x >= 0 {
        r
    } else {
        -r
    };
    let result = if signed_q > 0x7FFF_FFFF {
        i32::MIN
    } else {
        signed_q as i32
    };
    let bits = if signed_r >= 0 {
        signed_r as u32
    } else {
        (signed_r + 0x1_0000_0000) as u32
    };
    (result, bits)
}

} // verus!
