//! The machine as a mathematical value, and the meaning of one step.
//!
//! [`State`] holds everything that an instruction can read or change. One
//! step is the function [`step_spec`]: fetch the word at the program counter,
//! decode it, apply it. A step that fails leaves the state as it was.

use crate::display::{blank, collides, draw_spec, PIXELS};
use crate::fault::{Fault, FaultKind};
use crate::font::{glyph_address_spec, FONT, FONT_BASE, FONT_BYTES};
use crate::instruction::{decode_spec, Instruction};
use vstd::prelude::*;

verus! {

/// Bytes of memory.
pub const MEMORY_SIZE: usize = 4096;

/// Address at which a program is loaded and starts.
pub const PROGRAM_START: u16 = 0x200;

/// The largest program that fits: memory from `PROGRAM_START` to its end.
pub const PROGRAM_CAPACITY: usize = 3584;

/// Levels of the call stack.
pub const STACK_DEPTH: usize = 16;

/// Number of the flag register `VF`.
pub const FLAG: u8 = 0xF;

/// Choices on which historical interpreters disagree.
#[derive(Clone, Copy, Debug, PartialEq, Eq)]
pub struct Quirks {
    /// What `8XY6` and `8XYE` shift. When clear, they shift `V[y]` and store
    /// the result in `V[x]`, as the first interpreter did. When set, they
    /// shift `V[x]` in place and ignore `V[y]`.
    pub shift_in_place: bool,
}

/// The whole machine.
#[verifier::ext_equal]
pub struct State {
    /// Memory, `MEMORY_SIZE` bytes.
    pub memory: Seq<u8>,
    /// The registers `V0`..`VF`.
    pub v: Seq<u8>,
    /// The index register `I`.
    pub i: u16,
    /// The program counter.
    pub pc: u16,
    /// The call stack: the addresses of the call instructions that have not
    /// returned yet, the oldest first. Its length is the stack pointer.
    pub stack: Seq<u16>,
    /// The delay timer.
    pub delay_timer: u8,
    /// The sound timer.
    pub sound_timer: u8,
    /// The latched key, `0x0`..=`0xF`, or `None` while no key is pressed.
    pub key: Option<u8>,
    /// Whether the last step found a key-wait instruction and no key.
    pub waiting: bool,
    /// The display, `PIXELS` pixels in row-major order.
    pub display: Seq<bool>,
    /// The quirks that the machine was created with.
    pub quirks: Quirks,
}

impl State {
    /// The sizes are right, the stack is within its depth and holds only
    /// addresses at which an instruction fits, and a latched key is a key of
    /// the keypad.
    pub open spec fn wf(self) -> bool {
        &&& self.memory.len() == MEMORY_SIZE
        &&& self.v.len() == 16
        &&& self.stack.len() <= STACK_DEPTH
        &&& forall|k: int| 0 <= k < self.stack.len() ==> #[trigger] self.stack[k] < MEMORY_SIZE - 1
        &&& self.display.len() == PIXELS
        &&& (self.key matches Some(k) ==> k <= 0xF)
    }

    /// The state with `V[x]` set to `value`.
    pub open spec fn with_register(self, x: u8, value: u8) -> State {
        State { v: self.v.update(x as int, value), ..self }
    }

    /// The state with the program counter `by` bytes further, and not
    /// waiting.
    pub open spec fn advanced(self, by: int) -> State {
        State { pc: (self.pc + by) as u16, waiting: false, ..self }
    }

    /// The state with the program counter at `target`, and not waiting.
    pub open spec fn jumped(self, target: int) -> State {
        State { pc: target as u16, waiting: false, ..self }
    }

    /// The state after an instruction that only moves on to the next one.
    pub open spec fn next(self) -> State {
        self.advanced(2)
    }

    /// The state after a conditional skip: over the next instruction if
    /// `taken`, else on to it.
    pub open spec fn skipped(self, taken: bool) -> State {
        self.advanced(
            if taken {
                4
            } else {
                2
            },
        )
    }

    /// The state after an arithmetic instruction: the operands were read
    /// beforehand, then `VF` receives `flag`, then `V[x]` receives `value`.
    /// With `x == 0xF` the value therefore replaces the flag.
    pub open spec fn with_flagged_result(self, x: u8, flag: bool, value: int) -> State {
        self.with_register(FLAG, flag_byte(flag)).with_register(x, value as u8).next()
    }

    /// The register that `8XY6` and `8XYE` shift.
    pub open spec fn shift_source(self, x: u8, y: u8) -> u8 {
        if self.quirks.shift_in_place {
            self.v[x as int]
        } else {
            self.v[y as int]
        }
    }
}

/// A condition as the flag register holds it: 1 for true, 0 for false.
pub open spec fn flag_byte(flag: bool) -> u8 {
    if flag {
        1
    } else {
        0
    }
}

/// The instruction word made of two consecutive bytes, the first being the
/// more significant.
pub open spec fn word_spec(high: u8, low: u8) -> u16 {
    (high * 256 + low) as u16
}

/// The word at the program counter, or `None` if the program counter leaves
/// no room for two bytes inside memory.
pub open spec fn fetch_spec(s: State) -> Option<u16> {
    if s.pc + 1 < MEMORY_SIZE {
        Some(word_spec(s.memory[s.pc as int], s.memory[s.pc + 1]))
    } else {
        None
    }
}

/// The sprite of `rows` rows that the index register points at: the bytes
/// `memory[I]`, `memory[I+1]`, ..., one per row.
pub open spec fn sprite_at(s: State, rows: u8) -> Seq<u8> {
    Seq::new(rows as nat, |k: int| s.memory[s.i + k])
}

/// Memory after the registers `V[0]..=V[x]` were stored at `I..=I+x`.
pub open spec fn stored_registers(s: State, x: u8) -> Seq<u8> {
    Seq::new(
        s.memory.len(),
        |a: int|
            if s.i <= a <= s.i + x {
                s.v[a - s.i]
            } else {
                s.memory[a]
            },
    )
}

/// The registers after `V[0]..=V[x]` were loaded from `I..=I+x`.
pub open spec fn loaded_registers(s: State, x: u8) -> Seq<u8> {
    Seq::new(
        s.v.len(),
        |k: int|
            if k <= x {
                s.memory[s.i + k]
            } else {
                s.v[k]
            },
    )
}

/// Memory after the decimal digits of `value` were stored at `I`, `I+1` and
/// `I+2`: hundreds, tens, ones.
pub open spec fn stored_decimal(s: State, value: u8) -> Seq<u8> {
    s.memory.update(s.i as int, value / 100).update(s.i + 1, (value / 10) % 10).update(
        s.i + 2,
        value % 10,
    )
}

/// The effect of one instruction on the state: the next state, or the reason
/// why the instruction cannot be carried out.
///
/// `random` is the byte that `Random` draws; no other instruction reads it.
/// The state is one in which the instruction was fetched: a word fits at the
/// program counter.
pub open spec fn execute_spec(s: State, instruction: Instruction, random: u8) -> Result<
    State,
    FaultKind,
> {
    match instruction {
        Instruction::ClearScreen => Ok(State { display: blank(), ..s }.next()),
        Instruction::Return => if s.stack.len() == 0 {
            Err(FaultKind::StackUnderflow)
        } else {
            Ok(State { stack: s.stack.drop_last(), ..s }.jumped(s.stack.last() + 2))
        },
        Instruction::Jump { addr } => Ok(s.jumped(addr as int)),
        Instruction::Call { addr } => if s.stack.len() >= STACK_DEPTH {
            Err(FaultKind::StackOverflow)
        } else {
            Ok(State { stack: s.stack.push(s.pc), ..s }.jumped(addr as int))
        },
        Instruction::SkipIfEqual { x, byte } => Ok(s.skipped(s.v[x as int] == byte)),
        Instruction::SkipIfNotEqual { x, byte } => Ok(s.skipped(s.v[x as int] != byte)),
        Instruction::SkipIfRegistersEqual { x, y } => Ok(s.skipped(s.v[x as int] == s.v[y as int])),
        Instruction::LoadByte { x, byte } => Ok(s.with_register(x, byte).next()),
        Instruction::AddByte { x, byte } => Ok(
            s.with_register(x, ((s.v[x as int] + byte) % 256) as u8).next(),
        ),
        Instruction::Move { x, y } => Ok(s.with_register(x, s.v[y as int]).next()),
        Instruction::Or { x, y } => Ok(s.with_register(x, s.v[x as int] | s.v[y as int]).next()),
        Instruction::And { x, y } => Ok(s.with_register(x, s.v[x as int] & s.v[y as int]).next()),
        Instruction::Xor { x, y } => Ok(s.with_register(x, s.v[x as int] ^ s.v[y as int]).next()),
        Instruction::Add { x, y } => Ok(
            s.with_flagged_result(
                x,
                s.v[x as int] + s.v[y as int] > 255,
                (s.v[x as int] + s.v[y as int]) % 256,
            ),
        ),
        Instruction::Sub { x, y } => Ok(
            s.with_flagged_result(
                x,
                s.v[x as int] >= s.v[y as int],
                (s.v[x as int] - s.v[y as int]) % 256,
            ),
        ),
        Instruction::ShiftRight { x, y } => Ok(
            s.with_flagged_result(
                x,
                s.shift_source(x, y) % 2 == 1,
                s.shift_source(x, y) as int / 2,
            ),
        ),
        Instruction::SubReversed { x, y } => Ok(
            s.with_flagged_result(
                x,
                s.v[y as int] >= s.v[x as int],
                (s.v[y as int] - s.v[x as int]) % 256,
            ),
        ),
        Instruction::ShiftLeft { x, y } => Ok(
            s.with_flagged_result(
                x,
                s.shift_source(x, y) >= 128,
                (s.shift_source(x, y) * 2) % 256,
            ),
        ),
        Instruction::SkipIfRegistersNotEqual { x, y } => Ok(
            s.skipped(s.v[x as int] != s.v[y as int]),
        ),
        Instruction::LoadIndex { addr } => Ok(State { i: addr, ..s }.next()),
        Instruction::JumpOffset { addr } => Ok(s.jumped(addr + s.v[0])),
        Instruction::Random { x, byte } => Ok(s.with_register(x, random & byte).next()),
        Instruction::Draw { x, y, rows } => if rows > 0 && s.i + rows > MEMORY_SIZE {
            Err(FaultKind::MemoryOutOfBounds)
        } else {
            let sprite = sprite_at(s, rows);
            let column = s.v[x as int] as int;
            let row = s.v[y as int] as int;
            Ok(
                State { display: draw_spec(s.display, sprite, column, row), ..s }.with_register(
                    FLAG,
                    flag_byte(collides(s.display, sprite, column, row)),
                ).next(),
            )
        },
        Instruction::SkipIfKey { x } => Ok(s.skipped(s.key == Some(s.v[x as int]))),
        Instruction::SkipIfNotKey { x } => Ok(s.skipped(s.key != Some(s.v[x as int]))),
        Instruction::ReadDelay { x } => Ok(s.with_register(x, s.delay_timer).next()),
        Instruction::WaitKey { x } => match s.key {
            None => Ok(State { waiting: true, ..s }),
            Some(key) => Ok(s.with_register(x, key).next()),
        },
        Instruction::SetDelay { x } => Ok(State { delay_timer: s.v[x as int], ..s }.next()),
        Instruction::SetSound { x } => Ok(State { sound_timer: s.v[x as int], ..s }.next()),
        Instruction::AddIndex { x } => Ok(
            State { i: ((s.i + s.v[x as int]) % 0x10000) as u16, ..s }.next(),
        ),
        Instruction::LoadGlyph { x } => Ok(
            State { i: glyph_address_spec(s.v[x as int]), ..s }.next(),
        ),
        Instruction::StoreDecimal { x } => if s.i + 2 >= MEMORY_SIZE {
            Err(FaultKind::MemoryOutOfBounds)
        } else {
            Ok(State { memory: stored_decimal(s, s.v[x as int]), ..s }.next())
        },
        Instruction::StoreRegisters { x } => if s.i + x >= MEMORY_SIZE {
            Err(FaultKind::MemoryOutOfBounds)
        } else {
            Ok(State { memory: stored_registers(s, x), ..s }.next())
        },
        Instruction::LoadRegisters { x } => if s.i + x >= MEMORY_SIZE {
            Err(FaultKind::MemoryOutOfBounds)
        } else {
            Ok(State { v: loaded_registers(s, x), ..s }.next())
        },
    }
}

/// The instruction at the program counter, with its word; or the fault that
/// stops the step before anything is executed: no room for a word at the
/// program counter, or a word outside the instruction table.
pub open spec fn next_instruction_spec(s: State) -> Result<(u16, Instruction), Fault> {
    match fetch_spec(s) {
        None => Err(Fault { kind: FaultKind::FetchOutOfBounds, opcode: None, pc: s.pc }),
        Some(opcode) => match decode_spec(opcode) {
            None => Err(
                Fault { kind: FaultKind::UnsupportedOpcode, opcode: Some(opcode), pc: s.pc },
            ),
            Some(instruction) => Ok((opcode, instruction)),
        },
    }
}

/// One step of the machine: fetch, decode, execute. A failure carries the
/// instruction word, as far as one was fetched, and the program counter.
pub open spec fn step_spec(s: State, random: u8) -> Result<State, Fault> {
    match next_instruction_spec(s) {
        Err(fault) => Err(fault),
        Ok((opcode, instruction)) => match execute_spec(s, instruction, random) {
            Ok(after) => Ok(after),
            Err(kind) => Err(Fault { kind, opcode: Some(opcode), pc: s.pc }),
        },
    }
}

/// Whether a call that returned `result` and changed the state from `before`
/// to `after` did what `expected` says: on success the state is the expected
/// one, on failure the error is the expected one and the state is untouched.
pub open spec fn agrees<E>(
    expected: Result<State, E>,
    before: State,
    after: State,
    result: Result<(), E>,
) -> bool {
    match expected {
        Ok(state) => result.is_ok() && after == state,
        Err(error) => result == Err::<(), E>(error) && after == before,
    }
}

/// Whether the next step draws a random byte.
pub open spec fn draws_random(s: State) -> bool {
    next_instruction_spec(s) matches Ok((_, Instruction::Random { .. }))
}

/// Whether the instruction sets the program counter instead of moving on:
/// a jump, a call or a return.
pub open spec fn transfers_control(instruction: Instruction) -> bool {
    instruction is Jump || instruction is Call || instruction is Return
        || instruction is JumpOffset
}

/// Whether the instruction is a conditional skip whose condition holds in
/// state `s`.
pub open spec fn skip_taken(s: State, instruction: Instruction) -> bool {
    match instruction {
        Instruction::SkipIfEqual { x, byte } => s.v[x as int] == byte,
        Instruction::SkipIfNotEqual { x, byte } => s.v[x as int] != byte,
        Instruction::SkipIfRegistersEqual { x, y } => s.v[x as int] == s.v[y as int],
        Instruction::SkipIfRegistersNotEqual { x, y } => s.v[x as int] != s.v[y as int],
        Instruction::SkipIfKey { x } => s.key == Some(s.v[x as int]),
        Instruction::SkipIfNotKey { x } => s.key != Some(s.v[x as int]),
        _ => false,
    }
}

/// Whether the instruction waits for a key while none is latched in `s`.
pub open spec fn blocked(s: State, instruction: Instruction) -> bool {
    instruction is WaitKey && s.key.is_none()
}

/// The state after one tick of the timer clock: each timer that is not zero
/// is one less.
pub open spec fn tick_spec(s: State) -> State {
    State {
        delay_timer: if s.delay_timer > 0 {
            (s.delay_timer - 1) as u8
        } else {
            0
        },
        sound_timer: if s.sound_timer > 0 {
            (s.sound_timer - 1) as u8
        } else {
            0
        },
        ..s
    }
}

/// What the key latch holds after `key` was supplied: the key, if it is one of
/// the sixteen keys of the keypad, and nothing otherwise.
pub open spec fn latched(key: Option<u8>) -> Option<u8> {
    match key {
        Some(k) => if k <= 0xF {
            Some(k)
        } else {
            None
        },
        None => None,
    }
}

/// Memory at start: zero everywhere, but for the font at `FONT_BASE` and the
/// program at `PROGRAM_START`.
pub open spec fn initial_memory(program: Seq<u8>) -> Seq<u8> {
    Seq::new(
        MEMORY_SIZE as nat,
        |a: int|
            if FONT_BASE <= a < FONT_BASE + FONT_BYTES {
                FONT@[a - FONT_BASE]
            } else if PROGRAM_START <= a < PROGRAM_START + program.len() {
                program[a - PROGRAM_START]
            } else {
                0u8
            },
    )
}

/// The machine at start: the program loaded, everything else zero or empty,
/// and the program counter at `PROGRAM_START`.
pub open spec fn initial_state(program: Seq<u8>, quirks: Quirks) -> State {
    State {
        memory: initial_memory(program),
        v: Seq::new(16, |k: int| 0u8),
        i: 0,
        pc: PROGRAM_START,
        stack: Seq::empty(),
        delay_timer: 0,
        sound_timer: 0,
        key: None,
        waiting: false,
        display: blank(),
        quirks,
    }
}

} // verus!
