//! The execution engine: eight registers, an execution pointer, the memory
//! and a queue of input bytes, advanced one instruction at a time.
//!
//! The engine never touches the console. A step that has a byte to print
//! or that needs a line of input says so in the [`Action`] it returns; the
//! caller prints, or answers with [`Machine::feed_line`],
//! [`Machine::end_input`] or [`Machine::notify_interrupt`], and steps again.

use crate::fault::Fault;
use crate::instruction::{decode, decode_spec, lemma_decoded_is_well_formed, Instruction};
use crate::memory::{
    lemma_allocate_keeps_wf, lemma_free_keeps_wf, lemma_replace_keeps_wf, Heap, Memory,
};
use std::collections::VecDeque;
use vstd::prelude::*;

verus! {

/// Where a machine stands in its run.
#[derive(Clone, Copy, Debug, PartialEq, Eq, Structural)]
pub enum Status {
    /// The next step fetches and executes an instruction.
    Running,
    /// A halt instruction was executed.
    Halted,
    /// The run ended on the given fault.
    Faulted(Fault),
}

/// What the caller has to do after a step.
#[derive(Clone, Copy, Debug, PartialEq, Eq, Structural)]
pub enum Action {
    /// Nothing: step again.
    Continue,
    /// Write this byte to the console at once, then step again.
    Output(u8),
    /// Hand over a line of input, or say that input has ended, then step again.
    ReadLine,
    /// Nothing more: the machine has halted or faulted.
    Stop,
}

/// The byte that ends every line of input.
pub const LINE_END: u8 = 10;

/// What is read where input has ended: all 32 bits set.
pub const END_OF_INPUT: u32 = 0xFFFF_FFFF;

/// The state of a machine, as mathematics.
#[verifier::ext_equal]
pub struct State {
    /// The eight registers.
    pub registers: Seq<u32>,
    /// The offset in segment 0 of the next instruction.
    pub pointer: nat,
    /// The segments and the retired handles.
    pub memory: Heap,
    /// The input bytes not yet read, oldest first.
    pub pending_input: Seq<u8>,
    /// The caller has said that no more input will come.
    pub input_ended: bool,
    /// Running, halted or faulted.
    pub status: Status,
}

impl State {
    /// A machine before its program is loaded: all registers zero, the
    /// pointer at 0, an empty program, no input, running.
    pub open spec fn initial() -> State {
        State {
            registers: Seq::new(8, |i: int| 0u32),
            pointer: 0,
            memory: Heap::initial(),
            pending_input: Seq::empty(),
            input_ended: false,
            status: Status::Running,
        }
    }

    /// Eight registers over a well-formed heap.
    pub open spec fn wf(self) -> bool {
        self.registers.len() == 8 && self.memory.wf()
    }

    /// The value of register `i`.
    pub open spec fn reg(self, i: u32) -> u32 {
        self.registers[i as int]
    }

    /// The running program: the words of segment 0.
    pub open spec fn program(self) -> Seq<u32> {
        self.memory.segments[0]
    }

    /// This state with register `i` set to `value`.
    pub open spec fn set_reg(self, i: u32, value: u32) -> State {
        State { registers: self.registers.update(i as int, value), ..self }
    }

    /// This state with another memory.
    pub open spec fn set_memory(self, memory: Heap) -> State {
        State { memory, ..self }
    }

    /// This state, stopped on a fault.
    pub open spec fn fault(self, fault: Fault) -> (State, Action) {
        (State { status: Status::Faulted(fault), ..self }, Action::Stop)
    }

    /// The effect of one instruction on a state whose pointer has already
    /// moved past it, and what the caller is to do afterwards.
    ///
    /// A fault leaves registers, memory and input as they were. An input
    /// instruction that finds nothing pending reads the all-ones word;
    /// `step` comes here in that case only once input has ended.
    pub open spec fn execute(self, ins: Instruction) -> (State, Action) {
        match ins {
            Instruction::ConditionalMove { a, b, c } => if self.reg(c) != 0 {
                (self.set_reg(a, self.reg(b)), Action::Continue)
            } else {
                (self, Action::Continue)
            },
            Instruction::ArrayIndex { a, b, c } => if !self.memory.live(self.reg(b)) {
                self.fault(Fault::InvalidHandle)
            } else if self.reg(c) >= self.memory.segments[self.reg(b)].len() {
                self.fault(Fault::OutOfBoundsIndex)
            } else {
                (
                    self.set_reg(a, self.memory.segments[self.reg(b)][self.reg(c) as int]),
                    Action::Continue,
                )
            },
            Instruction::ArrayAmendment { a, b, c } => if !self.memory.live(self.reg(a)) {
                self.fault(Fault::InvalidHandle)
            } else if self.reg(b) >= self.memory.segments[self.reg(a)].len() {
                self.fault(Fault::OutOfBoundsIndex)
            } else {
                (
                    self.set_memory(self.memory.write(self.reg(a), self.reg(b), self.reg(c))),
                    Action::Continue,
                )
            },
            Instruction::Addition { a, b, c } => (
                self.set_reg(a, ((self.reg(b) + self.reg(c)) % 0x1_0000_0000) as u32),
                Action::Continue,
            ),
            Instruction::Multiplication { a, b, c } => (
                self.set_reg(a, ((self.reg(b) * self.reg(c)) % 0x1_0000_0000) as u32),
                Action::Continue,
            ),
            Instruction::Division { a, b, c } => if self.reg(c) == 0 {
                self.fault(Fault::DivisionByZero)
            } else {
                (self.set_reg(a, (self.reg(b) / self.reg(c)) as u32), Action::Continue)
            },
            Instruction::NotAnd { a, b, c } => (
                self.set_reg(a, !(self.reg(b) & self.reg(c))),
                Action::Continue,
            ),
            Instruction::Halt => (State { status: Status::Halted, ..self }, Action::Stop),
            Instruction::Allocation { b, c } => if self.memory.can_allocate() {
                (
                    self.set_memory(self.memory.allocate(self.reg(c))).set_reg(
                        b,
                        self.memory.next_handle(),
                    ),
                    Action::Continue,
                )
            } else {
                self.fault(Fault::HandlesExhausted)
            },
            Instruction::Abandonment { c } => if self.reg(c) != 0 && self.memory.live(self.reg(c)) {
                (self.set_memory(self.memory.free(self.reg(c))), Action::Continue)
            } else {
                self.fault(Fault::InvalidHandle)
            },
            Instruction::Output { c } => if self.reg(c) <= 255 {
                (self, Action::Output(self.reg(c) as u8))
            } else {
                self.fault(Fault::InvalidOutputByte)
            },
            Instruction::Input { c } => if self.pending_input.len() > 0 {
                (
                    State {
                        pending_input: self.pending_input.drop_first(),
                        ..self.set_reg(c, self.pending_input[0] as u32)
                    },
                    Action::Continue,
                )
            } else {
                (self.set_reg(c, END_OF_INPUT), Action::Continue)
            },
            Instruction::LoadProgram { b, c } => if self.reg(b) == 0 {
                (State { pointer: self.reg(c) as nat, ..self }, Action::Continue)
            } else if self.memory.live(self.reg(b)) {
                (
                    State {
                        pointer: self.reg(c) as nat,
                        memory: self.memory.replace(0, self.memory.segments[self.reg(b)]),
                        ..self
                    },
                    Action::Continue,
                )
            } else {
                self.fault(Fault::InvalidHandle)
            },
            Instruction::Orthography { a, value } => (self.set_reg(a, value), Action::Continue),
        }
    }

    /// The instruction wants input that has not arrived and may still come.
    pub open spec fn awaits_line(self, ins: Instruction) -> bool {
        ins is Input && self.pending_input.len() == 0 && !self.input_ended
    }

    /// One step of the machine.
    ///
    /// A machine that is not running stays as it is. A running one fetches
    /// the word under the pointer, faulting if there is none; decodes it,
    /// faulting if it names no operation; where it is an input instruction
    /// with nothing to read, stays as it is and asks for a line; else moves
    /// the pointer on by one and executes the instruction.
    pub open spec fn step(self) -> (State, Action) {
        if self.status != Status::Running {
            (self, Action::Stop)
        } else if self.pointer >= self.program().len() {
            self.fault(Fault::OutOfBoundsIndex)
        } else {
            match decode_spec(self.program()[self.pointer as int]) {
                None => self.fault(Fault::UnknownOpcode),
                Some(ins) => if self.awaits_line(ins) {
                    (self, Action::ReadLine)
                } else {
                    self.advance().execute(ins)
                },
            }
        }
    }

    /// The machine is running and the word under its pointer decodes to `ins`.
    pub open spec fn fetches(self, ins: Instruction) -> bool {
        &&& self.status == Status::Running
        &&& self.pointer < self.program().len()
        &&& decode_spec(self.program()[self.pointer as int]) == Some(ins)
    }

    /// This state with the pointer moved on by one.
    pub open spec fn advance(self) -> State {
        State { pointer: self.pointer + 1, ..self }
    }

    /// A line is taken where it is not empty and input has not ended.
    pub open spec fn accepts_line(self, line: Seq<u8>) -> bool {
        line.len() > 0 && !self.input_ended
    }

    /// This state with an accepted line, and the byte that ends it, behind
    /// the input already pending.
    pub open spec fn feed_line(self, line: Seq<u8>) -> State {
        State { pending_input: self.pending_input + line.push(LINE_END), ..self }
    }

    /// This state once the caller has said that no more input will come.
    pub open spec fn end_input(self) -> State {
        State { input_ended: true, ..self }
    }
}

/// A step on an addition leaves in register `a` the sum of registers `b`
/// and `c` modulo 2^32, moves the pointer on by one and changes nothing
/// else. Two registers that hold 0xFFFFFFFF add up to 0xFFFFFFFE.
pub proof fn lemma_addition_wraps(s: State, a: u32, b: u32, c: u32)
    requires
        s.wf(),
        s.fetches(Instruction::Addition { a, b, c }),
    ensures
        s.step().1 == Action::Continue,
        s.step().0.reg(a) == (s.reg(b) + s.reg(c)) % 0x1_0000_0000,
        s.step().0 == s.advance().set_reg(a, s.step().0.reg(a)),
        s.reg(b) == 0xFFFF_FFFF && s.reg(c) == 0xFFFF_FFFF ==> s.step().0.reg(a) == 0xFFFF_FFFE,
{
    lemma_decoded_is_well_formed(s.program()[s.pointer as int]);
}

/// A step on a multiplication leaves in register `a` the product of
/// registers `b` and `c` modulo 2^32, moves the pointer on by one and
/// changes nothing else. Two registers that hold 0xFFFFFFFF multiply to 1.
pub proof fn lemma_multiplication_wraps(s: State, a: u32, b: u32, c: u32)
    requires
        s.wf(),
        s.fetches(Instruction::Multiplication { a, b, c }),
    ensures
        s.step().1 == Action::Continue,
        s.step().0.reg(a) == (s.reg(b) * s.reg(c)) % 0x1_0000_0000,
        s.step().0 == s.advance().set_reg(a, s.step().0.reg(a)),
        s.reg(b) == 0xFFFF_FFFF && s.reg(c) == 0xFFFF_FFFF ==> s.step().0.reg(a) == 1,
{
    lemma_decoded_is_well_formed(s.program()[s.pointer as int]);
}

/// A step on a division whose divisor register holds zero ends the run
/// with `DivisionByZero`: no register receives a quotient, and registers,
/// memory and input are as before.
pub proof fn lemma_division_by_zero_faults(s: State, a: u32, b: u32, c: u32)
    requires
        s.wf(),
        s.fetches(Instruction::Division { a, b, c }),
        s.reg(c) == 0,
    ensures
        s.step().1 == Action::Stop,
        s.step().0 == (State { status: Status::Faulted(Fault::DivisionByZero), ..s.advance() }),
{
}

/// A step on a division by a register that is not zero leaves the
/// unsigned quotient in register `a` and keeps the machine running.
pub proof fn lemma_division_divides(s: State, a: u32, b: u32, c: u32)
    requires
        s.wf(),
        s.fetches(Instruction::Division { a, b, c }),
        s.reg(c) != 0,
    ensures
        s.step().1 == Action::Continue,
        s.step().0.reg(a) == s.reg(b) / s.reg(c),
        s.step().0 == s.advance().set_reg(a, s.step().0.reg(a)),
{
    lemma_decoded_is_well_formed(s.program()[s.pointer as int]);
}

/// A step on a conditional move copies register `b` into register `a`
/// where register `c` is not zero, and leaves every register as it was
/// where register `c` is zero.
pub proof fn lemma_conditional_move(s: State, a: u32, b: u32, c: u32)
    requires
        s.wf(),
        s.fetches(Instruction::ConditionalMove { a, b, c }),
    ensures
        s.step().1 == Action::Continue,
        s.reg(c) == 0 ==> s.step().0 == s.advance(),
        s.reg(c) != 0 ==> s.step().0.reg(a) == s.reg(b),
        s.reg(c) != 0 ==> s.step().0 == s.advance().set_reg(a, s.reg(b)),
{
    lemma_decoded_is_well_formed(s.program()[s.pointer as int]);
}

/// A step on a load-program instruction whose register `b` names a live
/// segment other than 0 makes the program an exact copy of that segment,
/// so that nothing of the old program is left, and sets the pointer to the
/// value of register `c`; the word that the next step fetches is the word
/// at that offset of the copied segment. Where register `b` holds 0 the
/// program stays and only the pointer moves.
pub proof fn lemma_load_program(s: State, b: u32, c: u32)
    requires
        s.wf(),
        s.fetches(Instruction::LoadProgram { b, c }),
        s.memory.live(s.reg(b)),
    ensures
        s.step().1 == Action::Continue,
        s.step().0.program() == s.memory.segments[s.reg(b)],
        s.step().0.pointer == s.reg(c),
        s.step().0 == (State {
            pointer: s.reg(c) as nat,
            memory: s.memory.replace(0, s.memory.segments[s.reg(b)]),
            ..s
        }),
        s.reg(c) < s.memory.segments[s.reg(b)].len() ==> s.step().0.program()[s.step().0.pointer as int]
            == s.memory.segments[s.reg(b)][s.reg(c) as int],
        s.reg(b) == 0 ==> s.step().0.memory == s.memory,
{
}

/// A step of a well-formed state gives a well-formed state: there are
/// still eight registers, and every handle that exists is still either
/// live or retired, with handle 0 live.
pub proof fn lemma_step_keeps_wf(s: State)
    requires
        s.wf(),
    ensures
        s.step().0.wf(),
{
    if s.status == Status::Running && s.pointer < s.program().len() {
        let word = s.program()[s.pointer as int];
        lemma_decoded_is_well_formed(word);
        match decode_spec(word) {
            Some(Instruction::ArrayAmendment { a, b, c }) => {
                if s.memory.live(s.reg(a)) {
                    lemma_replace_keeps_wf(
                        s.memory,
                        s.reg(a),
                        s.memory.segments[s.reg(a)].update(s.reg(b) as int, s.reg(c)),
                    );
                }
            },
            Some(Instruction::Allocation { b, c }) => {
                if s.memory.can_allocate() {
                    lemma_allocate_keeps_wf(s.memory, s.reg(c));
                }
            },
            Some(Instruction::Abandonment { c }) => {
                if s.reg(c) != 0 && s.memory.live(s.reg(c)) {
                    lemma_free_keeps_wf(s.memory, s.reg(c));
                }
            },
            Some(Instruction::LoadProgram { b, c }) => {
                if s.memory.live(s.reg(b)) {
                    lemma_replace_keeps_wf(s.memory, 0, s.memory.segments[s.reg(b)]);
                }
            },
            _ => {},
        }
    }
}

/// A machine that has halted or faulted stays exactly as it is.
pub proof fn lemma_stopped_stays(s: State)
    requires
        s.status != Status::Running,
    ensures
        s.step() == (s, Action::Stop),
{
}

/// One machine: registers, execution pointer, memory and pending input.
#[derive(Debug)]
pub struct Machine {
    regs: [u32; 8],
    memory: Memory,
    pc: usize,
    input_buffer: VecDeque<u8>,
    input_ended: bool,
    status: Status,
}

impl View for Machine {
    type V = State;

    closed spec fn view(&self) -> State {
        State {
            registers: self.regs@,
            pointer: self.pc as nat,
            memory: self.memory@,
            pending_input: self.input_buffer@,
            input_ended: self.input_ended,
            status: self.status,
        }
    }
}

impl Machine {
    /// The machine's memory is sound.
    pub closed spec fn wf(&self) -> bool {
        self.memory.wf()
    }

    /// A sound machine shows a well-formed state.
    pub proof fn lemma_view_wf(&self)
        requires
            self.wf(),
        ensures
            self@.wf(),
    {
        self.memory.lemma_view_wf();
    }

    /// A machine in its initial state.
    pub fn new() -> (machine: Machine)
        ensures
            machine.wf(),
            machine@ == State::initial(),
    {
        Machine {
            regs: [0u32;8],
            memory: Memory::new(),
            pc: 0,
            input_buffer: VecDeque::new(),
            input_ended: false,
            status: Status::Running,
        }
    }

    /// Makes `program` the content of segment 0, whatever it held before.
    ///
    /// Registers, pointer, input and status stay as they are.
    pub fn load_program(&mut self, program: &[u32])
        requires
            old(self).wf(),
        ensures
            final(self).wf(),
            final(self)@ == old(self)@.set_memory(old(self)@.memory.replace(0, program@)),
    {
        proof {
            self.memory.lemma_view_wf();
        }
        let content: Vec<u32> = vstd::slice::slice_to_vec(program);
        *self.memory.words_mut(0) = content;
    }

    /// The value of register `i`.
    pub fn reg(&self, i: u32) -> (value: u32)
        requires
            i < 8,
        ensures
            value == self@.reg(i),
    {
        self.regs[i as usize]
    }

    /// Register `i`, to be written in place.
    pub fn reg_mut(&mut self, i: u32) -> (value: &mut u32)
        requires
            i < 8,
            old(self).wf(),
        ensures
            *value == old(self)@.reg(i),
            final(self).wf(),
            final(self)@ =~= old(self)@.set_reg(i, *final(value)),
    {
        &mut self.regs[i as usize]
    }

    /// The words of segment `i`.
    ///
    /// Fails with `InvalidHandle` exactly where `i` names no live segment.
    pub fn array(&self, i: u32) -> (r: Result<&Vec<u32>, Fault>)
        requires
            self.wf(),
        ensures
            match r {
                Ok(words) => self@.memory.live(i) && words@ == self@.memory.segments[i],
                Err(fault) => !self@.memory.live(i) && fault == Fault::InvalidHandle,
            },
    {
        self.memory.segment(i)
    }

    /// The words of segment `i`, to be changed in place.
    ///
    /// Fails with `InvalidHandle` exactly where `i` names no live segment;
    /// the machine is then unchanged. Whatever the caller does to the words
    /// it is handed becomes the new content of that segment and changes
    /// nothing else.
    pub fn array_mut(&mut self, i: u32) -> (r: Result<&mut Vec<u32>, Fault>)
        requires
            old(self).wf(),
        ensures
            match r {
                Ok(words) => {
                    &&& old(self)@.memory.live(i)
                    &&& words@ == old(self)@.memory.segments[i]
                    &&& final(self)@ =~= old(self)@.set_memory(
                        old(self)@.memory.replace(i, final(words)@),
                    )
                    &&& final(self).wf()
                },
                Err(fault) => {
                    &&& !old(self)@.memory.live(i)
                    &&& fault == Fault::InvalidHandle
                    &&& final(self)@ == old(self)@
                    &&& final(self).wf()
                },
            },
    {
        self.memory.segment_mut(i)
    }

    /// The memory, for reading.
    pub fn memory(&self) -> (memory: &Memory)
        requires
            self.wf(),
        ensures
            memory.wf(),
            memory@ == self@.memory,
    {
        &self.memory
    }

    /// The offset in segment 0 of the next instruction.
    pub fn pc(&self) -> (pc: usize)
        ensures
            pc == self@.pointer,
    {
        self.pc
    }

    /// Running, halted or faulted.
    pub fn status(&self) -> (status: Status)
        ensures
            status == self@.status,
    {
        self.status
    }

    /// Hands the machine a line of input, without the byte that ends it.
    ///
    /// An empty line is not taken, nor any line after the end of input:
    /// the machine is then unchanged and `false` comes back. Any other line
    /// joins the pending input, followed by the line end.
    pub fn feed_line(&mut self, line: &[u8]) -> (accepted: bool)
        requires
            old(self).wf(),
        ensures
            final(self).wf(),
            accepted == old(self)@.accepts_line(line@),
            final(self)@ == if accepted {
                old(self)@.feed_line(line@)
            } else {
                old(self)@
            },
    {
        if line.len() == 0 || self.input_ended {
            return false;
        }
        let mut i: usize = 0;
        while i < line.len()
            invariant
                i <= line@.len(),
                self.wf(),
                self@ == (State {
                    pending_input: old(self)@.pending_input + line@.subrange(0, i as int),
                    ..old(self)@
                }),
            decreases line@.len() - i,
        {
            self.input_buffer.push_back(line[i]);
            i = i + 1;
        }
        self.input_buffer.push_back(LINE_END);
        true
    }

    /// Tells the machine that no more input will come.
    ///
    /// From now on an input instruction that finds nothing pending reads
    /// the all-ones word instead of asking for a line.
    pub fn end_input(&mut self)
        requires
            old(self).wf(),
        ensures
            final(self).wf(),
            final(self)@ == old(self)@.end_input(),
    {
        self.input_ended = true;
    }

    /// Tells the machine that the wait for a line was interrupted.
    ///
    /// The machine takes an interrupt for the end of input.
    pub fn notify_interrupt(&mut self)
        requires
            old(self).wf(),
        ensures
            final(self).wf(),
            final(self)@ == old(self)@.end_input(),
    {
        self.end_input();
    }

    fn stop(&mut self, fault: Fault) -> (action: Action)
        requires
            old(self).wf(),
        ensures
            final(self).wf(),
            final(self)@ == old(self)@.fault(fault).0,
            action == old(self)@.fault(fault).1,
    {
        self.status = Status::Faulted(fault);
        Action::Stop
    }

    /// Carries out one decoded instruction; the pointer has already moved on.
    fn execute(&mut self, ins: Instruction) -> (action: Action)
        requires
            old(self).wf(),
            ins.well_formed(),
        ensures
            final(self).wf(),
            final(self)@ == old(self)@.execute(ins).0,
            action == old(self)@.execute(ins).1,
    {
        match ins {
            Instruction::ConditionalMove { a, b, c } => {
                if self.reg(c) != 0 {
                    let value = self.reg(b);
                    *self.reg_mut(a) = value;
                }
                Action::Continue
            },
            Instruction::ArrayIndex { a, b, c } => {
                match self.memory.read(self.reg(b), self.reg(c)) {
                    Ok(word) => {
                        *self.reg_mut(a) = word;
                        Action::Continue
                    },
                    Err(fault) => self.stop(fault),
                }
            },
            Instruction::ArrayAmendment { a, b, c } => {
                let handle = self.reg(a);
                let index = self.reg(b);
                let word = self.reg(c);
                match self.memory.write(handle, index, word) {
                    Ok(()) => Action::Continue,
                    Err(fault) => self.stop(fault),
                }
            },
            Instruction::Addition { a, b, c } => {
                let value = self.reg(b).wrapping_add(self.reg(c));
                *self.reg_mut(a) = value;
                Action::Continue
            },
            Instruction::Multiplication { a, b, c } => {
                let value = self.reg(b).wrapping_mul(self.reg(c));
                *self.reg_mut(a) = value;
                Action::Continue
            },
            Instruction::Division { a, b, c } => {
                let divisor = self.reg(c);
                if divisor == 0 {
                    self.stop(Fault::DivisionByZero)
                } else {
                    let value = self.reg(b) / divisor;
                    *self.reg_mut(a) = value;
                    Action::Continue
                }
            },
            Instruction::NotAnd { a, b, c } => {
                let value = !(self.reg(b) & self.reg(c));
                *self.reg_mut(a) = value;
                Action::Continue
            },
            Instruction::Halt => {
                self.status = Status::Halted;
                Action::Stop
            },
            Instruction::Allocation { b, c } => {
                let size = self.reg(c);
                match self.memory.allocate(size) {
                    Ok(handle) => {
                        *self.reg_mut(b) = handle;
                        Action::Continue
                    },
                    Err(fault) => self.stop(fault),
                }
            },
            Instruction::Abandonment { c } => {
                let handle = self.reg(c);
                match self.memory.free(handle) {
                    Ok(()) => Action::Continue,
                    Err(fault) => self.stop(fault),
                }
            },
            Instruction::Output { c } => {
                let value = self.reg(c);
                if value <= 255 {
                    Action::Output(value as u8)
                } else {
                    self.stop(Fault::InvalidOutputByte)
                }
            },
            Instruction::Input { c } => {
                match self.input_buffer.pop_front() {
                    Some(byte) => {
                        *self.reg_mut(c) = byte as u32;
                    },
                    None => {
                        *self.reg_mut(c) = END_OF_INPUT;
                    },
                }
                Action::Continue
            },
            Instruction::LoadProgram { b, c } => {
                let handle = self.reg(b);
                if handle != 0 {
                    proof {
                        self.memory.lemma_view_wf();
                    }
                    let content: Vec<u32> = match self.array(handle) {
                        Ok(words) => words.clone(),
                        Err(fault) => {
                            return self.stop(fault);
                        },
                    };
                    *self.memory.words_mut(0) = content;
                }
                self.pc = self.reg(c) as usize;
                Action::Continue
            },
            Instruction::Orthography { a, value } => {
                *self.reg_mut(a) = value;
                Action::Continue
            },
        }
    }

    /// Advances the machine by one step and says what the caller is to do.
    ///
    /// A halted or faulted machine is left as it is and answers `Stop`.
    pub fn step(&mut self) -> (action: Action)
        requires
            old(self).wf(),
        ensures
            final(self).wf(),
            final(self)@ == old(self)@.step().0,
            action == old(self)@.step().1,
    {
        match self.status {
            Status::Running => {},
            _ => {
                return Action::Stop;
            },
        }
        proof {
            self.memory.lemma_view_wf();
        }
        let program = self.memory.words(0);
        if self.pc >= program.len() {
            return self.stop(Fault::OutOfBoundsIndex);
        }
        let word: u32 = program[self.pc];
        match decode(word) {
            Err(fault) => self.stop(fault),
            Ok(ins) => {
                let waits = match ins {
                    Instruction::Input { .. } => self.input_buffer.len() == 0 && !self.input_ended,
                    _ => false,
                };
                if waits {
                    Action::ReadLine
                } else {
                    self.pc = self.pc + 1;
                    self.execute(ins)
                }
            },
        }
    }
}

} // verus!
