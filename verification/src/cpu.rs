//! The interpreter: the machine state in executable form and the operations
//! of its driver.
//!
//! A driver creates the machine with [`Cpu::initialize`], and then repeats:
//! latch the key that is pressed ([`Cpu::set_key`]), run some steps
//! ([`Cpu::step`]), present the display ([`Cpu::display`]), and tick the
//! timers once per frame ([`Cpu::tick_timers`]). The interpreter does no
//! input or output and never ticks the timers itself.

use crate::display::{blank, collides, draw_spec, Display, PIXELS};
use crate::fault::{Fault, FaultKind, LoadError};
use crate::font::{glyph_address, FONT, FONT_BASE, FONT_BYTES};
use crate::instruction::{decode, Instruction};
use crate::random::gen_range;
use crate::state::{
    agrees, draws_random, execute_spec, fetch_spec, initial_state, latched, loaded_registers,
    next_instruction_spec, sprite_at, step_spec, stored_decimal, stored_registers, tick_spec,
    word_spec, Quirks, State, FLAG, MEMORY_SIZE, PROGRAM_CAPACITY, PROGRAM_START, STACK_DEPTH,
};
use vstd::prelude::*;
use vstd::slice::slice_subrange;

verus! {

/// The machine.
#[derive(Debug)]
pub struct Cpu {
    memory: Vec<u8>,
    v: [u8; 16],
    i: u16,
    pc: u16,
    stack: [u16; 16],
    sp: u8,
    delay_timer: u8,
    sound_timer: u8,
    key: Option<u8>,
    waiting: bool,
    display: Display,
    quirks: Quirks,
}

impl View for Cpu {
    type V = State;

    /// The machine as a mathematical value. Of the stack only the levels in
    /// use are part of it.
    closed spec fn view(&self) -> State {
        State {
            memory: self.memory@,
            v: self.v@,
            i: self.i,
            pc: self.pc,
            stack: self.stack@.take(self.sp as int),
            delay_timer: self.delay_timer,
            sound_timer: self.sound_timer,
            key: self.key,
            waiting: self.waiting,
            display: self.display@,
            quirks: self.quirks,
        }
    }
}

impl Cpu {
    #[verifier::type_invariant]
    spec fn inv(self) -> bool {
        &&& self.memory.len() == MEMORY_SIZE
        &&& self.sp <= STACK_DEPTH
        &&& forall|k: int| 0 <= k < self.sp ==> #[trigger] self.stack@[k] < MEMORY_SIZE - 1
        &&& self.display@.len() == PIXELS
        &&& (self.key matches Some(k) ==> k <= 0xF)
    }

    /// Creates the machine with `program` loaded at `PROGRAM_START` and the
    /// standard behaviour of the shift instructions.
    ///
    /// Any byte sequence of up to `PROGRAM_CAPACITY` bytes is a program; a
    /// longer one is refused.
    pub fn initialize(program: &[u8]) -> (result: Result<Cpu, LoadError>)
        ensures
            result.is_ok() <==> program@.len() <= PROGRAM_CAPACITY,
            result matches Ok(cpu) ==> cpu@ == initial_state(
                program@,
                Quirks { shift_in_place: false },
            ) && cpu@.wf(),
            result matches Err(error) ==> error == (LoadError::ProgramTooLarge {
                len: program@.len() as usize,
            }),
    {
        Cpu::initialize_with(program, Quirks { shift_in_place: false })
    }

    /// Creates the machine with `program` loaded at `PROGRAM_START` and the
    /// given quirks.
    pub fn initialize_with(program: &[u8], quirks: Quirks) -> (result: Result<Cpu, LoadError>)
        ensures
            result.is_ok() <==> program@.len() <= PROGRAM_CAPACITY,
            result matches Ok(cpu) ==> cpu@ == initial_state(program@, quirks) && cpu@.wf(),
            result matches Err(error) ==> error == (LoadError::ProgramTooLarge {
                len: program@.len() as usize,
            }),
    {
        let len: usize = program.len();
        if len > PROGRAM_CAPACITY {
            return Err(LoadError::ProgramTooLarge { len });
        }
        let mut memory: Vec<u8> = vec![0u8; MEMORY_SIZE];
        let mut k: usize = 0;
        while k < FONT_BYTES
            invariant
                k <= FONT_BYTES,
                memory.len() == MEMORY_SIZE,
                forall|a: int|
                    0 <= a < MEMORY_SIZE ==> #[trigger] memory@[a] == (if FONT_BASE <= a < FONT_BASE
                        + k {
                        FONT@[a - FONT_BASE]
                    } else {
                        0u8
                    }),
            decreases FONT_BYTES - k,
        {
            memory[FONT_BASE as usize + k] = FONT[k];
            k = k + 1;
        }
        let mut k: usize = 0;
        while k < len
            invariant
                k <= len <= PROGRAM_CAPACITY,
                len == program@.len(),
                memory.len() == MEMORY_SIZE,
                forall|a: int|
                    0 <= a < MEMORY_SIZE ==> #[trigger] memory@[a] == (if FONT_BASE <= a < FONT_BASE
                        + FONT_BYTES {
                        FONT@[a - FONT_BASE]
                    } else if PROGRAM_START <= a < PROGRAM_START + k {
                        program@[a - PROGRAM_START]
                    } else {
                        0u8
                    }),
            decreases len - k,
        {
            memory[PROGRAM_START as usize + k] = program[k];
            k = k + 1;
        }
        let cpu = Cpu {
            memory,
            v: [0u8; 16],
            i: 0,
            pc: PROGRAM_START,
            stack: [0u16; 16],
            sp: 0,
            delay_timer: 0,
            sound_timer: 0,
            key: None,
            waiting: false,
            display: Display::new(),
            quirks,
        };
        assert(cpu@ =~= initial_state(program@, quirks));
        Ok(cpu)
    }

    /// The instruction at the program counter, with its word; or the fault
    /// that a step would end in before executing anything.
    pub fn next_instruction(&self) -> (next: Result<(u16, Instruction), Fault>)
        ensures
            next == next_instruction_spec(self@),
            next matches Ok((_, instruction)) ==> instruction.wf(),
    {
        match self.fetch() {
            None => Err(Fault { kind: FaultKind::FetchOutOfBounds, opcode: None, pc: self.pc }),
            Some(opcode) => match decode(opcode) {
                None => Err(
                    Fault { kind: FaultKind::UnsupportedOpcode, opcode: Some(opcode), pc: self.pc },
                ),
                Some(instruction) => Ok((opcode, instruction)),
            },
        }
    }

    /// The word at the program counter, or `None` if the program counter
    /// leaves no room for two bytes inside memory.
    pub fn fetch(&self) -> (opcode: Option<u16>)
        ensures
            opcode == fetch_spec(self@),
    {
        proof {
            use_type_invariant(self);
        }
        let at: usize = self.pc as usize;
        if at + 1 < MEMORY_SIZE {
            Some(word(self.memory[at], self.memory[at + 1]))
        } else {
            None
        }
    }

    /// Runs one step in which a `Random` instruction, if it is the next one,
    /// draws `random`.
    ///
    /// The step fetches the word at the program counter, decodes it and
    /// carries it out. It fails, leaving the machine untouched, if no word
    /// can be fetched, if the word is not an instruction, on a call that
    /// overflows or a return that underflows the stack, and on an access
    /// beyond the end of memory. A key-wait instruction that finds no key
    /// latched succeeds without moving the program counter and marks the
    /// machine as waiting.
    pub fn step_with(&mut self, random: u8) -> (result: Result<(), Fault>)
        ensures
            agrees(step_spec(old(self)@, random), old(self)@, final(self)@, result),
            old(self)@.wf() && final(self)@.wf(),
    {
        proof {
            use_type_invariant(&*self);
        }
        let result = match self.next_instruction() {
            Err(fault) => Err(fault),
            Ok((opcode, instruction)) => self.run(opcode, instruction, random),
        };
        proof {
            use_type_invariant(&*self);
        }
        result
    }

    /// Runs one step; a `Random` instruction draws its byte from the
    /// thread-local random number generator.
    ///
    /// The step is [`Cpu::step_with`] for the byte that was drawn. No byte
    /// is drawn, and none is read, unless the next instruction is `Random`.
    pub fn step(&mut self) -> (result: Result<(), Fault>)
        ensures
            exists|random: u8|
                agrees(#[trigger] step_spec(old(self)@, random), old(self)@, final(self)@, result),
            !draws_random(old(self)@) ==> agrees(
                step_spec(old(self)@, 0),
                old(self)@,
                final(self)@,
                result,
            ),
            old(self)@.wf() && final(self)@.wf(),
    {
        proof {
            use_type_invariant(&*self);
        }
        let ghost mut drawn: u8 = 0;
        let result = match self.next_instruction() {
            Err(fault) => Err(fault),
            Ok((opcode, instruction)) => {
                let random: u8 = match instruction {
                    Instruction::Random { .. } => random_byte(),
                    _ => 0,
                };
                proof {
                    drawn = random;
                }
                self.run(opcode, instruction, random)
            },
        };
        proof {
            use_type_invariant(&*self);
            assert(agrees(step_spec(old(self)@, drawn), old(self)@, self@, result));
        }
        result
    }

    /// Latches the key that is pressed, or `None` for no key, replacing what
    /// was latched before: of several calls the last one wins. A value that
    /// is no key of the keypad (above `0xF`) latches "no key".
    pub fn set_key(&mut self, key: Option<u8>)
        ensures
            final(self)@ == (State { key: latched(key), ..old(self)@ }),
            final(self)@.wf(),
    {
        proof {
            use_type_invariant(&*self);
        }
        self.key = match key {
            Some(k) => if k <= 0xF {
                Some(k)
            } else {
                None
            },
            None => None,
        };
        assert(self@ =~= State { key: latched(key), ..old(self)@ });
    }

    /// One tick of the timer clock: the delay timer and the sound timer each
    /// go down by one unless they are zero. Only the driver calls this, once
    /// per frame.
    pub fn tick_timers(&mut self)
        ensures
            final(self)@ == tick_spec(old(self)@),
            final(self)@.wf(),
    {
        proof {
            use_type_invariant(&*self);
        }
        if self.delay_timer > 0 {
            self.delay_timer = self.delay_timer - 1;
        }
        if self.sound_timer > 0 {
            self.sound_timer = self.sound_timer - 1;
        }
        assert(self@ =~= tick_spec(old(self)@));
    }

    /// The registers `V0`..`VF`.
    pub fn registers(&self) -> (v: &[u8; 16])
        ensures
            v@ == self@.v,
            self@.wf(),
    {
        proof {
            use_type_invariant(self);
        }
        &self.v
    }

    /// The index register `I`.
    pub fn index(&self) -> (i: u16)
        ensures
            i == self@.i,
    {
        self.i
    }

    /// The program counter.
    pub fn program_counter(&self) -> (pc: u16)
        ensures
            pc == self@.pc,
    {
        self.pc
    }

    /// The delay timer.
    pub fn delay_timer(&self) -> (value: u8)
        ensures
            value == self@.delay_timer,
    {
        self.delay_timer
    }

    /// The sound timer. A driver sounds a tone while it is not zero.
    pub fn sound_timer(&self) -> (value: u8)
        ensures
            value == self@.sound_timer,
    {
        self.sound_timer
    }

    /// The latched key.
    pub fn key(&self) -> (key: Option<u8>)
        ensures
            key == self@.key,
            key matches Some(k) ==> k <= 0xF,
    {
        proof {
            use_type_invariant(self);
        }
        self.key
    }

    /// Whether the last step found a key-wait instruction and no key latched.
    /// The machine resumes with the first step that finds a key.
    pub fn is_waiting(&self) -> (waiting: bool)
        ensures
            waiting == self@.waiting,
    {
        self.waiting
    }

    /// The quirks that the machine was created with.
    pub fn quirks(&self) -> (quirks: Quirks)
        ensures
            quirks == self@.quirks,
    {
        self.quirks
    }

    /// The display, for presentation.
    pub fn display(&self) -> (display: &Display)
        ensures
            display@ == self@.display,
            display@.len() == PIXELS,
    {
        proof {
            use_type_invariant(self);
        }
        &self.display
    }

    /// The whole memory.
    pub fn memory(&self) -> (memory: &[u8])
        ensures
            memory@ == self@.memory,
            memory@.len() == MEMORY_SIZE,
    {
        proof {
            use_type_invariant(self);
        }
        self.memory.as_slice()
    }

    /// The call stack: the addresses of the calls that have not returned
    /// yet, the oldest first.
    pub fn call_stack(&self) -> (stack: Vec<u16>)
        ensures
            stack@ == self@.stack,
            stack@.len() <= STACK_DEPTH,
    {
        proof {
            use_type_invariant(self);
        }
        let mut stack: Vec<u16> = Vec::new();
        let mut level: usize = 0;
        while level < self.sp as usize
            invariant
                level <= self.sp <= STACK_DEPTH,
                stack@ == self.stack@.take(level as int),
            decreases self.sp - level,
        {
            stack.push(self.stack[level]);
            assert(stack@ =~= self.stack@.take(level + 1));
            level = level + 1;
        }
        stack
    }

    /// Carries out the instruction that was found at the program counter,
    /// and completes a failure with the word and the program counter.
    fn run(&mut self, opcode: u16, instruction: Instruction, random: u8) -> (result: Result<
        (),
        Fault,
    >)
        requires
            next_instruction_spec(old(self)@) == Ok::<(u16, Instruction), Fault>(
                (opcode, instruction),
            ),
            instruction.wf(),
        ensures
            agrees(step_spec(old(self)@, random), old(self)@, final(self)@, result),
    {
        let pc: u16 = self.pc;
        match self.execute(instruction, random) {
            Ok(()) => Ok(()),
            Err(kind) => Err(Fault { kind, opcode: Some(opcode), pc }),
        }
    }

    /// Carries out one decoded instruction. On failure the machine is left
    /// as it was.
    fn execute(&mut self, instruction: Instruction, random: u8) -> (result: Result<(), FaultKind>)
        requires
            instruction.wf(),
            old(self)@.pc + 1 < MEMORY_SIZE,
        ensures
            agrees(execute_spec(old(self)@, instruction, random), old(self)@, final(self)@, result),
    {
        match instruction {
            Instruction::ClearScreen => {
                self.op_clear_screen();
                Ok(())
            },
            Instruction::Return => self.op_return(),
            Instruction::Jump { addr } => {
                self.jump(addr);
                Ok(())
            },
            Instruction::Call { addr } => self.op_call(addr),
            Instruction::SkipIfEqual { x, byte } => {
                let taken: bool = self.v[x as usize] == byte;
                self.skip(taken);
                Ok(())
            },
            Instruction::SkipIfNotEqual { x, byte } => {
                let taken: bool = self.v[x as usize] != byte;
                self.skip(taken);
                Ok(())
            },
            Instruction::SkipIfRegistersEqual { x, y } => {
                let taken: bool = self.v[x as usize] == self.v[y as usize];
                self.skip(taken);
                Ok(())
            },
            Instruction::LoadByte { x, byte } => {
                self.write_register(x, byte);
                Ok(())
            },
            Instruction::AddByte { x, byte } => {
                let sum: u8 = add_bytes(self.v[x as usize], byte);
                self.write_register(x, sum);
                Ok(())
            },
            Instruction::Move { x, y } => {
                let value: u8 = self.v[y as usize];
                self.write_register(x, value);
                Ok(())
            },
            Instruction::Or { x, y } => {
                let value: u8 = self.v[x as usize] | self.v[y as usize];
                self.write_register(x, value);
                Ok(())
            },
            Instruction::And { x, y } => {
                let value: u8 = self.v[x as usize] & self.v[y as usize];
                self.write_register(x, value);
                Ok(())
            },
            Instruction::Xor { x, y } => {
                let value: u8 = self.v[x as usize] ^ self.v[y as usize];
                self.write_register(x, value);
                Ok(())
            },
            Instruction::Add { x, y } => {
                let sum: u16 = self.v[x as usize] as u16 + self.v[y as usize] as u16;
                self.finish_arithmetic(x, sum > 255, (sum % 256) as u8);
                Ok(())
            },
            Instruction::Sub { x, y } => {
                let left: u8 = self.v[x as usize];
                let right: u8 = self.v[y as usize];
                self.finish_arithmetic(x, left >= right, sub_bytes(left, right));
                Ok(())
            },
            Instruction::ShiftRight { x, y } => {
                self.op_shift_right(x, y);
                Ok(())
            },
            Instruction::SubReversed { x, y } => {
                let left: u8 = self.v[y as usize];
                let right: u8 = self.v[x as usize];
                self.finish_arithmetic(x, left >= right, sub_bytes(left, right));
                Ok(())
            },
            Instruction::ShiftLeft { x, y } => {
                self.op_shift_left(x, y);
                Ok(())
            },
            Instruction::SkipIfRegistersNotEqual { x, y } => {
                let taken: bool = self.v[x as usize] != self.v[y as usize];
                self.skip(taken);
                Ok(())
            },
            Instruction::LoadIndex { addr } => {
                self.write_index(addr);
                Ok(())
            },
            Instruction::JumpOffset { addr } => {
                let target: u16 = addr + self.v[0] as u16;
                self.jump(target);
                Ok(())
            },
            Instruction::Random { x, byte } => {
                self.write_register(x, random & byte);
                Ok(())
            },
            Instruction::Draw { x, y, rows } => self.op_draw(x, y, rows),
            Instruction::SkipIfKey { x } => {
                let taken: bool = self.key_is(self.v[x as usize]);
                self.skip(taken);
                Ok(())
            },
            Instruction::SkipIfNotKey { x } => {
                let taken: bool = !self.key_is(self.v[x as usize]);
                self.skip(taken);
                Ok(())
            },
            Instruction::ReadDelay { x } => {
                let value: u8 = self.delay_timer;
                self.write_register(x, value);
                Ok(())
            },
            Instruction::WaitKey { x } => {
                self.op_wait_key(x);
                Ok(())
            },
            Instruction::SetDelay { x } => {
                let value: u8 = self.v[x as usize];
                self.write_delay_timer(value);
                Ok(())
            },
            Instruction::SetSound { x } => {
                let value: u8 = self.v[x as usize];
                self.write_sound_timer(value);
                Ok(())
            },
            Instruction::AddIndex { x } => {
                let sum: u16 = add_to_address(self.i, self.v[x as usize]);
                self.write_index(sum);
                Ok(())
            },
            Instruction::LoadGlyph { x } => {
                let addr: u16 = glyph_address(self.v[x as usize]);
                self.write_index(addr);
                Ok(())
            },
            Instruction::StoreDecimal { x } => self.op_store_decimal(x),
            Instruction::StoreRegisters { x } => self.op_store_registers(x),
            Instruction::LoadRegisters { x } => self.op_load_registers(x),
        }
    }
    /// `V[x] := value`.
    fn set_register(&mut self, x: u8, value: u8)
        requires
            x < 16,
        ensures
            final(self)@ == old(self)@.with_register(x, value),
    {
        proof {
            use_type_invariant(&*self);
        }
        self.v[x as usize] = value;
        assert(self@ =~= old(self)@.with_register(x, value));
    }

    /// Moves the program counter `by` bytes on.
    fn advance(&mut self, by: u16)
        requires
            old(self)@.pc + by <= u16::MAX,
        ensures
            final(self)@ == old(self)@.advanced(by as int),
    {
        proof {
            use_type_invariant(&*self);
        }
        self.pc = self.pc + by;
        self.waiting = false;
        assert(self@ =~= old(self)@.advanced(by as int));
    }

    /// Moves the program counter to `target`.
    fn jump(&mut self, target: u16)
        ensures
            final(self)@ == old(self)@.jumped(target as int),
    {
        proof {
            use_type_invariant(&*self);
        }
        self.pc = target;
        self.waiting = false;
        assert(self@ =~= old(self)@.jumped(target as int));
    }

    /// Skips the next instruction if `taken`, else moves on to it.
    fn skip(&mut self, taken: bool)
        requires
            old(self)@.pc + 4 <= u16::MAX,
        ensures
            final(self)@ == old(self)@.skipped(taken),
    {
        if taken {
            self.advance(4);
        } else {
            self.advance(2);
        }
    }

    /// Ends an arithmetic instruction: `VF := flag`, then `V[x] := value`,
    /// then on to the next instruction.
    fn finish_arithmetic(&mut self, x: u8, flag: bool, value: u8)
        requires
            x < 16,
            old(self)@.pc + 2 <= u16::MAX,
        ensures
            final(self)@ == old(self)@.with_flagged_result(x, flag, value as int),
    {
        let flag_value: u8 = if flag {
            1
        } else {
            0
        };
        self.set_register(FLAG, flag_value);
        self.set_register(x, value);
        self.advance(2);
    }

    /// `V[x] := value`, then on to the next instruction.
    fn write_register(&mut self, x: u8, value: u8)
        requires
            x < 16,
            old(self)@.pc + 2 <= u16::MAX,
        ensures
            final(self)@ == old(self)@.with_register(x, value).next(),
    {
        self.set_register(x, value);
        self.advance(2);
    }

    /// `I := value`, then on to the next instruction.
    fn write_index(&mut self, value: u16)
        requires
            old(self)@.pc + 2 <= u16::MAX,
        ensures
            final(self)@ == (State { i: value, ..old(self)@ }).next(),
    {
        proof {
            use_type_invariant(&*self);
        }
        self.i = value;
        assert(self@ =~= State { i: value, ..old(self)@ });
        self.advance(2);
    }

    /// `00E0`.
    fn op_clear_screen(&mut self)
        requires
            old(self)@.pc + 2 <= u16::MAX,
        ensures
            agrees(
                execute_spec(old(self)@, Instruction::ClearScreen, 0),
                old(self)@,
                final(self)@,
                Ok::<(), FaultKind>(()),
            ),
    {
        proof {
            use_type_invariant(&*self);
        }
        self.display.clear();
        assert(self@ =~= State { display: blank(), ..old(self)@ });
        self.advance(2);
    }

    /// `00EE`.
    fn op_return(&mut self) -> (result: Result<(), FaultKind>)
        ensures
            agrees(
                execute_spec(old(self)@, Instruction::Return, 0),
                old(self)@,
                final(self)@,
                result,
            ),
    {
        proof {
            use_type_invariant(&*self);
        }
        if self.sp == 0 {
            return Err(FaultKind::StackUnderflow);
        }
        self.sp = self.sp - 1;
        let call_site: u16 = self.stack[self.sp as usize];
        assert(call_site == old(self)@.stack.last());
        self.pc = call_site + 2;
        self.waiting = false;
        assert(self@ =~= (State { stack: old(self)@.stack.drop_last(), ..old(self)@ }).jumped(
            old(self)@.stack.last() + 2,
        ));
        Ok(())
    }

    /// `2NNN`.
    fn op_call(&mut self, addr: u16) -> (result: Result<(), FaultKind>)
        requires
            old(self)@.pc + 1 < MEMORY_SIZE,
        ensures
            agrees(
                execute_spec(old(self)@, Instruction::Call { addr }, 0),
                old(self)@,
                final(self)@,
                result,
            ),
    {
        proof {
            use_type_invariant(&*self);
        }
        if self.sp as usize >= STACK_DEPTH {
            return Err(FaultKind::StackOverflow);
        }
        self.stack[self.sp as usize] = self.pc;
        self.sp = self.sp + 1;
        self.pc = addr;
        self.waiting = false;
        assert(self@ =~= (State {
            stack: old(self)@.stack.push(old(self)@.pc),
            ..old(self)@
        }).jumped(addr as int));
        Ok(())
    }

    /// `8XY6` and `8XYE`: the register that is shifted.
    fn shift_source(&self, x: u8, y: u8) -> (source: u8)
        requires
            x < 16,
            y < 16,
        ensures
            source == self@.shift_source(x, y),
    {
        if self.quirks.shift_in_place {
            self.v[x as usize]
        } else {
            self.v[y as usize]
        }
    }

    /// `8XY6`.
    fn op_shift_right(&mut self, x: u8, y: u8)
        requires
            x < 16,
            y < 16,
            old(self)@.pc + 2 <= u16::MAX,
        ensures
            agrees(
                execute_spec(old(self)@, Instruction::ShiftRight { x, y }, 0),
                old(self)@,
                final(self)@,
                Ok::<(), FaultKind>(()),
            ),
    {
        let source: u8 = self.shift_source(x, y);
        assert((source & 1 == 1) == (source % 2 == 1)) by (bit_vector);
        assert(source >> 1 == source / 2) by (bit_vector);
        self.finish_arithmetic(x, source & 1 == 1, source >> 1);
    }

    /// `8XYE`.
    fn op_shift_left(&mut self, x: u8, y: u8)
        requires
            x < 16,
            y < 16,
            old(self)@.pc + 2 <= u16::MAX,
        ensures
            agrees(
                execute_spec(old(self)@, Instruction::ShiftLeft { x, y }, 0),
                old(self)@,
                final(self)@,
                Ok::<(), FaultKind>(()),
            ),
    {
        let source: u8 = self.shift_source(x, y);
        assert((source & 0x80 != 0) == (source >= 128)) by (bit_vector);
        assert(source << 1 == (source * 2) % 256) by (bit_vector);
        self.finish_arithmetic(x, source & 0x80 != 0, source << 1);
    }

    /// `DXYN`.
    fn op_draw(&mut self, x: u8, y: u8, rows: u8) -> (result: Result<(), FaultKind>)
        requires
            x < 16,
            y < 16,
            rows < 16,
            old(self)@.pc + 2 <= u16::MAX,
        ensures
            agrees(
                execute_spec(old(self)@, Instruction::Draw { x, y, rows }, 0),
                old(self)@,
                final(self)@,
                result,
            ),
    {
        proof {
            use_type_invariant(&*self);
        }
        let column: u8 = self.v[x as usize];
        let row: u8 = self.v[y as usize];
        let start: usize = self.i as usize;
        let count: usize = rows as usize;
        let ghost sprite = sprite_at(self@, rows);
        if count == 0 {
            proof {
                assert(draw_spec(self@.display, sprite, column as int, row as int)
                    =~= self@.display);
                assert(!collides(self@.display, sprite, column as int, row as int));
                assert(self@ =~= State {
                    display: draw_spec(old(self)@.display, sprite, column as int, row as int),
                    ..old(self)@
                });
            }
            self.write_register(FLAG, 0);
            return Ok(());
        }
        if start + count > MEMORY_SIZE {
            return Err(FaultKind::MemoryOutOfBounds);
        }
        let rows_at_index: &[u8] = slice_subrange(self.memory.as_slice(), start, start + count);
        assert(rows_at_index@ =~= sprite);
        let hit: bool = self.display.draw_rows(column, row, rows_at_index, count);
        assert(self@ =~= State {
            display: draw_spec(old(self)@.display, sprite, column as int, row as int),
            ..old(self)@
        });
        let flag_value: u8 = if hit {
            1
        } else {
            0
        };
        self.write_register(FLAG, flag_value);
        Ok(())
    }

    /// `FX0A`.
    fn op_wait_key(&mut self, x: u8)
        requires
            x < 16,
            old(self)@.pc + 2 <= u16::MAX,
        ensures
            agrees(
                execute_spec(old(self)@, Instruction::WaitKey { x }, 0),
                old(self)@,
                final(self)@,
                Ok::<(), FaultKind>(()),
            ),
    {
        proof {
            use_type_invariant(&*self);
        }
        match self.key {
            None => {
                self.waiting = true;
                assert(self@ =~= State { waiting: true, ..old(self)@ });
            },
            Some(key) => {
                self.write_register(x, key);
            },
        }
    }

    /// `FX15`: `delay timer := value`, then on to the next instruction.
    fn write_delay_timer(&mut self, value: u8)
        requires
            old(self)@.pc + 2 <= u16::MAX,
        ensures
            final(self)@ == (State { delay_timer: value, ..old(self)@ }).next(),
    {
        proof {
            use_type_invariant(&*self);
        }
        self.delay_timer = value;
        assert(self@ =~= State { delay_timer: value, ..old(self)@ });
        self.advance(2);
    }

    /// `FX18`: `sound timer := value`, then on to the next instruction.
    fn write_sound_timer(&mut self, value: u8)
        requires
            old(self)@.pc + 2 <= u16::MAX,
        ensures
            final(self)@ == (State { sound_timer: value, ..old(self)@ }).next(),
    {
        proof {
            use_type_invariant(&*self);
        }
        self.sound_timer = value;
        assert(self@ =~= State { sound_timer: value, ..old(self)@ });
        self.advance(2);
    }

    /// `FX33`.
    fn op_store_decimal(&mut self, x: u8) -> (result: Result<(), FaultKind>)
        requires
            x < 16,
            old(self)@.pc + 2 <= u16::MAX,
        ensures
            agrees(
                execute_spec(old(self)@, Instruction::StoreDecimal { x }, 0),
                old(self)@,
                final(self)@,
                result,
            ),
    {
        proof {
            use_type_invariant(&*self);
        }
        let value: u8 = self.v[x as usize];
        let start: usize = self.i as usize;
        if start + 2 >= MEMORY_SIZE {
            return Err(FaultKind::MemoryOutOfBounds);
        }
        self.memory[start] = value / 100;
        self.memory[start + 1] = (value / 10) % 10;
        self.memory[start + 2] = value % 10;
        assert(self.memory@ =~= stored_decimal(old(self)@, value));
        assert(self@ =~= State { memory: stored_decimal(old(self)@, value), ..old(self)@ });
        self.advance(2);
        Ok(())
    }

    /// `FX55`.
    fn op_store_registers(&mut self, x: u8) -> (result: Result<(), FaultKind>)
        requires
            x < 16,
            old(self)@.pc + 2 <= u16::MAX,
        ensures
            agrees(
                execute_spec(old(self)@, Instruction::StoreRegisters { x }, 0),
                old(self)@,
                final(self)@,
                result,
            ),
    {
        proof {
            use_type_invariant(&*self);
        }
        let start: usize = self.i as usize;
        let last: usize = x as usize;
        if start + last >= MEMORY_SIZE {
            return Err(FaultKind::MemoryOutOfBounds);
        }
        store_run(&mut self.memory, start, &self.v, last);
        assert(self.memory@ =~= stored_registers(old(self)@, x));
        assert(self@ =~= State { memory: stored_registers(old(self)@, x), ..old(self)@ });
        self.advance(2);
        Ok(())
    }

    /// `FX65`.
    fn op_load_registers(&mut self, x: u8) -> (result: Result<(), FaultKind>)
        requires
            x < 16,
            old(self)@.pc + 2 <= u16::MAX,
        ensures
            agrees(
                execute_spec(old(self)@, Instruction::LoadRegisters { x }, 0),
                old(self)@,
                final(self)@,
                result,
            ),
    {
        proof {
            use_type_invariant(&*self);
        }
        let start: usize = self.i as usize;
        let last: usize = x as usize;
        if start + last >= MEMORY_SIZE {
            return Err(FaultKind::MemoryOutOfBounds);
        }
        load_run(&mut self.v, &self.memory, start, last);
        assert(self.v@ =~= loaded_registers(old(self)@, x));
        assert(self@ =~= State { v: loaded_registers(old(self)@, x), ..old(self)@ });
        self.advance(2);
        Ok(())
    }

    /// Whether the latched key is `wanted`.
    fn key_is(&self, wanted: u8) -> (pressed: bool)
        ensures
            pressed == (self@.key == Some(wanted)),
    {
        match self.key {
            Some(key) => key == wanted,
            None => false,
        }
    }
}

/// Joins two bytes into an instruction word, the first being the more
/// significant.
pub fn word(high: u8, low: u8) -> (w: u16)
    ensures
        w == word_spec(high, low),
{
    let w: u16 = ((high as u16) << 8) | (low as u16);
    assert(((high as u16) << 8) | (low as u16) == high * 256 + low) by (bit_vector);
    w
}

/// A byte drawn at random from all 256.
///
/// The number comes from the generator as a value below 256, so the
/// conversion to a byte loses nothing. Every byte is a possible result and
/// two calls may differ: nothing is promised of the byte, and the step that
/// uses it is specified for each byte alike.
fn random_byte() -> u8 {
    let mut rng = rand::thread_rng();
    gen_range(&mut rng, 0, 256) as u8
}

/// The sum of two bytes, modulo 256.
fn add_bytes(a: u8, b: u8) -> (sum: u8)
    ensures
        sum == (a + b) % 256,
{
    a.wrapping_add(b)
}

/// The difference of two bytes, modulo 256.
fn sub_bytes(a: u8, b: u8) -> (difference: u8)
    ensures
        difference == (a - b) % 256,
{
    a.wrapping_sub(b)
}

/// The sum of an address and a byte, modulo 65536.
fn add_to_address(address: u16, offset: u8) -> (sum: u16)
    ensures
        sum == (address + offset) % 0x10000,
{
    address.wrapping_add(offset as u16)
}

/// Copies `values[0..=last]` to `memory[start..=start + last]`.
fn store_run(memory: &mut Vec<u8>, start: usize, values: &[u8; 16], last: usize)
    requires
        last < 16,
        start + last < old(memory).len(),
    ensures
        final(memory).len() == old(memory).len(),
        forall|a: int|
            0 <= a < old(memory).len() ==> #[trigger] final(memory)@[a] == (if start <= a <= start
                + last {
                values@[a - start]
            } else {
                old(memory)@[a]
            }),
    no_unwind
{
    let mut k: usize = 0;
    while k <= last
        invariant
            k <= last + 1,
            last < 16,
            memory.len() == old(memory).len(),
            start + last < memory.len(),
            forall|a: int|
                0 <= a < memory.len() ==> #[trigger] memory@[a] == (if start <= a < start + k {
                    values@[a - start]
                } else {
                    old(memory)@[a]
                }),
        decreases last + 1 - k,
    {
        memory[start + k] = values[k];
        k = k + 1;
    }
}

/// Copies `memory[start..=start + last]` to `values[0..=last]`.
fn load_run(values: &mut [u8; 16], memory: &Vec<u8>, start: usize, last: usize)
    requires
        last < 16,
        start + last < memory.len(),
    ensures
        forall|k: int|
            0 <= k < 16 ==> #[trigger] final(values)@[k] == (if k <= last {
                memory@[start + k]
            } else {
                old(values)@[k]
            }),
    no_unwind
{
    let mut k: usize = 0;
    while k <= last
        invariant
            k <= last + 1,
            last < 16,
            start + last < memory.len(),
            forall|j: int|
                0 <= j < 16 ==> #[trigger] values@[j] == (if j < k {
                    memory@[start + j]
                } else {
                    old(values)@[j]
                }),
        decreases last + 1 - k,
    {
        values[k] = memory[start + k];
        k = k + 1;
    }
}

} // verus!
