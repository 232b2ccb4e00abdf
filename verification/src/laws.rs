//! What holds of every step, stated over [`State`] and [`step_spec`].

use crate::display::{draw_spec, lemma_draw_twice_restores, sprite_covers};
use crate::fault::{Fault, FaultKind};
use crate::font::{glyph_address_spec, FONT, FONT_BYTES, GLYPH_BYTES};
use crate::instruction::{decode_spec, field_nn, field_op, field_x, Instruction};
use crate::state::{
    blocked, draws_random, execute_spec, fetch_spec, initial_memory, next_instruction_spec,
    skip_taken, sprite_at, step_spec, transfers_control, word_spec, State, FLAG,
    MEMORY_SIZE, STACK_DEPTH,
};
use vstd::prelude::*;

verus! {

/// Every instruction word decodes to an instruction whose operands are
/// within their fields, or to nothing.
pub proof fn lemma_decoded_is_well_formed(opcode: u16)
    ensures
        decode_spec(opcode) matches Some(instruction) ==> instruction.wf(),
{
}

/// A step keeps the machine well formed: the stack stays within its sixteen
/// levels, and the sizes of memory, registers and display never change.
pub proof fn lemma_step_preserves_wf(s: State, random: u8)
    requires
        s.wf(),
    ensures
        step_spec(s, random) matches Ok(after) ==> after.wf(),
{
    if let Ok((opcode, instruction)) = next_instruction_spec(s) {
        lemma_decoded_is_well_formed(opcode);
        if let Ok(after) = execute_spec(s, instruction, random) {
            assert(after.wf()) by {
                lemma_execute_preserves_wf(s, instruction, random);
            }
        }
    }
}

/// An instruction that can be fetched at the program counter keeps the
/// machine well formed.
pub proof fn lemma_execute_preserves_wf(s: State, instruction: Instruction, random: u8)
    requires
        s.wf(),
        instruction.wf(),
        s.pc + 1 < MEMORY_SIZE,
    ensures
        execute_spec(s, instruction, random) matches Ok(after) ==> after.wf(),
{
    match instruction {
        Instruction::Return => {
            if s.stack.len() > 0 {
                let after = execute_spec(s, instruction, random).unwrap();
                assert forall|k: int| 0 <= k < after.stack.len() implies #[trigger] after.stack[k]
                    < MEMORY_SIZE - 1 by {
                    assert(after.stack[k] == s.stack[k]);
                }
            }
        },
        Instruction::Call { addr } => {
            if s.stack.len() < STACK_DEPTH {
                let after = execute_spec(s, instruction, random).unwrap();
                assert forall|k: int| 0 <= k < after.stack.len() implies #[trigger] after.stack[k]
                    < MEMORY_SIZE - 1 by {
                    if k < s.stack.len() {
                        assert(after.stack[k] == s.stack[k]);
                    }
                }
            }
        },
        _ => {},
    }
}

/// Only the `Random` instruction reads the random byte: a step on any other
/// instruction is the same for every byte.
pub proof fn lemma_random_byte_only_read_by_random(s: State, first: u8, second: u8)
    requires
        !draws_random(s),
    ensures
        step_spec(s, first) == step_spec(s, second),
{
}

/// After a step on an instruction that does not transfer control, the
/// program counter is exactly two further, or exactly four further if the
/// instruction is a conditional skip whose condition holds. (A key-wait that
/// finds no key does not move at all.)
pub proof fn lemma_step_moves_program_counter(s: State, random: u8)
    requires
        step_spec(s, random) is Ok,
    ensures
        ({
            let (_, instruction) = next_instruction_spec(s).unwrap();
            let after = step_spec(s, random).unwrap();
            &&& skip_taken(s, instruction) ==> after.pc == s.pc + 4
            &&& !transfers_control(instruction) && !skip_taken(s, instruction) && !blocked(
                s,
                instruction,
            ) ==> after.pc == s.pc + 2
            &&& blocked(s, instruction) ==> after.pc == s.pc && after.waiting
        }),
{
}

/// The word `0x6XNN`, `0x3XNN` and so on: operation nibble `op`, then `x`,
/// then the byte `nn`.
pub open spec fn word_with_byte(op: int, x: u8, nn: u8) -> int {
    op * 0x1000 + x * 0x100 + nn
}

/// A word made of an operation nibble, a register and a byte decodes to
/// those fields.
proof fn lemma_fields_of_word_with_byte(op: int, x: u8, nn: u8, opcode: u16)
    requires
        0 <= op < 16,
        x < 16,
        opcode == word_with_byte(op, x, nn),
    ensures
        field_op(opcode) == op,
        field_x(opcode) == x,
        field_nn(opcode) == nn,
{
}

/// A register write is seen by the instruction that follows it: `6XNN`
/// followed immediately by `3XNN` with the same `X` and `NN` always skips.
/// The two steps leave the program counter six bytes further: two for the
/// load, four for the skip.
pub proof fn lemma_load_then_skip_if_equal(s: State, x: u8, byte: u8, first: u8, second: u8)
    requires
        s.wf(),
        x < 16,
        s.pc + 3 < MEMORY_SIZE,
        word_spec(s.memory[s.pc as int], s.memory[s.pc + 1]) == word_with_byte(0x6, x, byte),
        word_spec(s.memory[s.pc + 2], s.memory[s.pc + 3]) == word_with_byte(0x3, x, byte),
    ensures
        ({
            let loaded = step_spec(s, first);
            let skipped = step_spec(loaded.unwrap(), second);
            &&& loaded is Ok
            &&& loaded.unwrap().v[x as int] == byte
            &&& skipped is Ok
            &&& skipped.unwrap().pc == s.pc + 6
        }),
{
    let load = word_spec(s.memory[s.pc as int], s.memory[s.pc + 1]);
    let skip = word_spec(s.memory[s.pc + 2], s.memory[s.pc + 3]);
    lemma_fields_of_word_with_byte(0x6, x, byte, load);
    lemma_fields_of_word_with_byte(0x3, x, byte, skip);
    assert(decode_spec(load) == Some(Instruction::LoadByte { x, byte }));
    assert(decode_spec(skip) == Some(Instruction::SkipIfEqual { x, byte }));
    let loaded = step_spec(s, first).unwrap();
    assert(loaded == s.with_register(x, byte).next());
    assert(fetch_spec(loaded) == Some(skip));
}

/// A call remembers where it was made and adds one level to the stack,
/// leaving the levels below as they were; on a full stack it fails with a
/// stack overflow and changes nothing.
pub proof fn lemma_call_pushes_or_overflows(s: State, random: u8)
    requires
        next_instruction_spec(s) matches Ok((_, Instruction::Call { .. })),
    ensures
        ({
            let (opcode, instruction) = next_instruction_spec(s).unwrap();
            let after = step_spec(s, random);
            &&& s.stack.len() < STACK_DEPTH ==> {
                &&& after is Ok
                &&& after.unwrap().stack == s.stack.push(s.pc)
                &&& instruction == (Instruction::Call { addr: after.unwrap().pc })
            }
            &&& s.stack.len() >= STACK_DEPTH ==> after == Err::<State, Fault>(
                Fault { kind: FaultKind::StackOverflow, opcode: Some(opcode), pc: s.pc },
            )
        }),
{
}

/// A return on an empty stack fails with a stack underflow.
pub proof fn lemma_return_on_empty_stack_underflows(s: State, random: u8)
    requires
        next_instruction_spec(s) matches Ok((_, Instruction::Return)),
        s.stack.len() == 0,
    ensures
        step_spec(s, random) == Err::<State, Fault>(
            Fault { kind: FaultKind::StackUnderflow, opcode: Some(0x00EE), pc: s.pc },
        ),
{
}

/// A call followed by a return at the called address resumes exactly at the
/// instruction after the call, with the stack as it was before the call.
/// Nothing but the program counter has changed then, and the machine is not
/// waiting.
pub proof fn lemma_call_then_return(s: State, addr: u16, first: u8, second: u8)
    requires
        s.wf(),
        next_instruction_spec(s) matches Ok((_, Instruction::Call { addr: target }))
            && target == addr,
        s.stack.len() < STACK_DEPTH,
        fetch_spec(s.jumped(addr as int)) == Some(0x00EEu16),
    ensures
        ({
            let called = step_spec(s, first);
            let returned = step_spec(called.unwrap(), second);
            &&& called is Ok
            &&& returned == Ok::<State, Fault>(s.jumped(s.pc + 2))
        }),
{
    let called = step_spec(s, first).unwrap();
    assert(called == (State { stack: s.stack.push(s.pc), ..s }).jumped(addr as int));
    assert(fetch_spec(called) == Some(0x00EEu16));
    assert(decode_spec(0x00EEu16) == Some(Instruction::Return));
    let returned = step_spec(called, second).unwrap();
    assert(called.stack.drop_last() =~= s.stack);
    assert(returned =~= s.jumped(s.pc + 2));
}

/// Drawing the same sprite twice at the same place restores the display.
/// The second drawing sets `VF` to 1 exactly if the sprite has a set bit on
/// a pixel that was off before the first drawing, as it has whenever the
/// first drawing lit a pixel without switching one off; otherwise to 0.
///
/// "The same place" asks that the first drawing, which writes `VF`, left the
/// two coordinate registers as they were.
pub proof fn lemma_draw_twice(s: State, x: u8, y: u8, rows: u8)
    requires
        s.wf(),
        x < 16,
        y < 16,
        rows == 0 || s.i + rows <= MEMORY_SIZE,
        ({
            let once = execute_spec(s, Instruction::Draw { x, y, rows }, 0).unwrap();
            once.v[x as int] == s.v[x as int] && once.v[y as int] == s.v[y as int]
        }),
    ensures
        ({
            let draw = Instruction::Draw { x, y, rows };
            let sprite = sprite_at(s, rows);
            let column = s.v[x as int] as int;
            let row = s.v[y as int] as int;
            let once = execute_spec(s, draw, 0).unwrap();
            let twice = execute_spec(once, draw, 0);
            &&& twice is Ok
            &&& twice.unwrap().display == s.display
            &&& twice.unwrap().v[FLAG as int] == 1 <==> exists|p: int|
                0 <= p < s.display.len() && !#[trigger] s.display[p] && sprite_covers(
                    sprite,
                    column,
                    row,
                    p,
                )
            &&& twice.unwrap().v[FLAG as int] == 0 || twice.unwrap().v[FLAG as int] == 1
            &&& once.v[FLAG as int] == 0 && once.display != s.display ==> twice.unwrap().v[FLAG
                as int] == 1
        }),
{
    let draw = Instruction::Draw { x, y, rows };
    let sprite = sprite_at(s, rows);
    let column = s.v[x as int] as int;
    let row = s.v[y as int] as int;
    let once = execute_spec(s, draw, 0).unwrap();
    lemma_draw_twice_restores(s.display, sprite, column, row);
    assert(once.display == draw_spec(s.display, sprite, column, row));
    assert(once.memory == s.memory && once.i == s.i);
    let twice = execute_spec(once, draw, 0).unwrap();
    assert(twice.display == draw_spec(once.display, sprite, column, row));
}

/// Only the instructions made for it change a part of the machine: the
/// display is changed by drawing and clearing only, memory by the two store
/// instructions only, a timer by the instruction that sets it only, the
/// index register by the three instructions that set it only, and the stack
/// by calls and returns only. No instruction changes the key latch or the
/// quirks. In particular no step ticks a timer.
pub proof fn lemma_step_changes_only_its_own_part(s: State, random: u8)
    requires
        step_spec(s, random) is Ok,
    ensures
        ({
            let (_, instruction) = next_instruction_spec(s).unwrap();
            let after = step_spec(s, random).unwrap();
            &&& !(instruction is Draw || instruction is ClearScreen) ==> after.display == s.display
            &&& !(instruction is StoreDecimal || instruction is StoreRegisters) ==> after.memory
                == s.memory
            &&& !(instruction is SetDelay) ==> after.delay_timer == s.delay_timer
            &&& !(instruction is SetSound) ==> after.sound_timer == s.sound_timer
            &&& !(instruction is LoadIndex || instruction is AddIndex || instruction is LoadGlyph)
                ==> after.i == s.i
            &&& !(instruction is Call || instruction is Return) ==> after.stack == s.stack
            &&& after.key == s.key
            &&& after.quirks == s.quirks
        }),
{
}

/// Whether the program counter and every return address on the stack are
/// even: on a two-byte instruction boundary, as seen from the program base.
pub open spec fn aligned(s: State) -> bool {
    &&& s.pc % 2 == 0
    &&& forall|k: int| 0 <= k < s.stack.len() ==> #[trigger] s.stack[k] % 2 == 0
}

/// Where a jump or a call leads: `None` for every other instruction.
pub open spec fn jump_target(s: State, instruction: Instruction) -> Option<int> {
    match instruction {
        Instruction::Jump { addr } => Some(addr as int),
        Instruction::Call { addr } => Some(addr as int),
        Instruction::JumpOffset { addr } => Some(addr + s.v[0]),
        _ => None,
    }
}

/// The program counter stays on instruction boundaries as long as the
/// program does not jump to an odd address: every other instruction moves it
/// by two or four, or back to an address that a call has left on the stack.
pub proof fn lemma_step_keeps_alignment(s: State, random: u8)
    requires
        s.wf(),
        aligned(s),
        step_spec(s, random) is Ok,
        ({
            let (_, instruction) = next_instruction_spec(s).unwrap();
            jump_target(s, instruction) matches Some(target) ==> target % 2 == 0
        }),
    ensures
        aligned(step_spec(s, random).unwrap()),
{
    let (_, instruction) = next_instruction_spec(s).unwrap();
    let after = step_spec(s, random).unwrap();
    lemma_step_moves_program_counter(s, random);
    lemma_step_changes_only_its_own_part(s, random);
    match instruction {
        Instruction::Return => {
            assert(s.stack.last() == s.stack[s.stack.len() - 1]);
            assert(after.pc == s.stack.last() + 2);
            assert(after.stack == s.stack.drop_last());
            assert forall|k: int| 0 <= k < after.stack.len() implies #[trigger] after.stack[k] % 2
                == 0 by {
                assert(after.stack[k] == s.stack[k]);
            }
        },
        Instruction::Call { addr } => {
            assert(after.pc == addr);
            assert(after.stack == s.stack.push(s.pc));
            assert forall|k: int| 0 <= k < after.stack.len() implies #[trigger] after.stack[k] % 2
                == 0 by {
                if k < s.stack.len() {
                    assert(after.stack[k] == s.stack[k]);
                }
            }
        },
        Instruction::Jump { addr } => {
            assert(after.pc == addr);
        },
        Instruction::JumpOffset { addr } => {
            assert(after.pc == addr + s.v[0]);
        },
        _ => {
            assert(!transfers_control(instruction));
            assert(after.pc == s.pc || after.pc == s.pc + 2 || after.pc == s.pc + 4);
        },
    }
}

/// The font is loaded where the glyph instruction looks for it: in a fresh
/// machine, row `row` of the glyph for `digit` is the byte at the glyph's
/// address plus `row`, whatever the program.
pub proof fn lemma_glyph_address_points_at_glyph(program: Seq<u8>, digit: u8, row: int)
    requires
        digit <= 0xF,
        0 <= row < GLYPH_BYTES,
    ensures
        initial_memory(program)[glyph_address_spec(digit) + row] == FONT@[digit * GLYPH_BYTES
            + row],
        0 <= digit * GLYPH_BYTES + row < FONT_BYTES,
{
}

} // verus!
