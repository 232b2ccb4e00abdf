use chip8::{decode, Instruction};

#[test]
fn decodes_the_two_instructions_of_family_zero() {
    assert_eq!(decode(0x00E0), Some(Instruction::ClearScreen));
    assert_eq!(decode(0x00EE), Some(Instruction::Return));
}

#[test]
fn machine_routine_calls_are_not_instructions() {
    assert_eq!(decode(0x0000), None);
    assert_eq!(decode(0x0123), None);
    assert_eq!(decode(0x0FFF), None);
    assert_eq!(decode(0x01E0), None);
    assert_eq!(decode(0x00E1), None);
    assert_eq!(decode(0x0EEE), None);
}

#[test]
fn decodes_address_operands() {
    assert_eq!(decode(0x1ABC), Some(Instruction::Jump { addr: 0xABC }));
    assert_eq!(decode(0x2FFF), Some(Instruction::Call { addr: 0xFFF }));
    assert_eq!(decode(0xA000), Some(Instruction::LoadIndex { addr: 0x000 }));
    assert_eq!(decode(0xB123), Some(Instruction::JumpOffset { addr: 0x123 }));
}

#[test]
fn decodes_register_and_byte_operands() {
    assert_eq!(decode(0x3A7F), Some(Instruction::SkipIfEqual { x: 0xA, byte: 0x7F }));
    assert_eq!(decode(0x4B00), Some(Instruction::SkipIfNotEqual { x: 0xB, byte: 0x00 }));
    assert_eq!(decode(0x6CFF), Some(Instruction::LoadByte { x: 0xC, byte: 0xFF }));
    assert_eq!(decode(0x7D01), Some(Instruction::AddByte { x: 0xD, byte: 0x01 }));
    assert_eq!(decode(0xCE0F), Some(Instruction::Random { x: 0xE, byte: 0x0F }));
}

#[test]
fn decodes_the_arithmetic_family() {
    assert_eq!(decode(0x8120), Some(Instruction::Move { x: 1, y: 2 }));
    assert_eq!(decode(0x8121), Some(Instruction::Or { x: 1, y: 2 }));
    assert_eq!(decode(0x8122), Some(Instruction::And { x: 1, y: 2 }));
    assert_eq!(decode(0x8123), Some(Instruction::Xor { x: 1, y: 2 }));
    assert_eq!(decode(0x8124), Some(Instruction::Add { x: 1, y: 2 }));
    assert_eq!(decode(0x8125), Some(Instruction::Sub { x: 1, y: 2 }));
    assert_eq!(decode(0x8126), Some(Instruction::ShiftRight { x: 1, y: 2 }));
    assert_eq!(decode(0x8127), Some(Instruction::SubReversed { x: 1, y: 2 }));
    assert_eq!(decode(0x812E), Some(Instruction::ShiftLeft { x: 1, y: 2 }));
}

#[test]
fn rejects_unused_arithmetic_selectors() {
    for n in [0x8u16, 0x9, 0xA, 0xB, 0xC, 0xD, 0xF] {
        assert_eq!(decode(0x8120 | n), None);
    }
}

#[test]
fn register_comparisons_need_a_zero_low_nibble() {
    assert_eq!(decode(0x5AB0), Some(Instruction::SkipIfRegistersEqual { x: 0xA, y: 0xB }));
    assert_eq!(decode(0x9AB0), Some(Instruction::SkipIfRegistersNotEqual { x: 0xA, y: 0xB }));
    for n in 1u16..16 {
        assert_eq!(decode(0x5AB0 | n), None);
        assert_eq!(decode(0x9AB0 | n), None);
    }
}

#[test]
fn decodes_draw_with_all_three_nibbles() {
    assert_eq!(decode(0xD015), Some(Instruction::Draw { x: 0, y: 1, rows: 5 }));
    assert_eq!(decode(0xDFE0), Some(Instruction::Draw { x: 0xF, y: 0xE, rows: 0 }));
    assert_eq!(decode(0xD12F), Some(Instruction::Draw { x: 1, y: 2, rows: 15 }));
}

#[test]
fn decodes_the_key_family() {
    assert_eq!(decode(0xE39E), Some(Instruction::SkipIfKey { x: 3 }));
    assert_eq!(decode(0xE3A1), Some(Instruction::SkipIfNotKey { x: 3 }));
    assert_eq!(decode(0xE300), None);
    assert_eq!(decode(0xE39F), None);
    assert_eq!(decode(0xE3A0), None);
}

#[test]
fn decodes_the_system_family() {
    assert_eq!(decode(0xF507), Some(Instruction::ReadDelay { x: 5 }));
    assert_eq!(decode(0xF50A), Some(Instruction::WaitKey { x: 5 }));
    assert_eq!(decode(0xF515), Some(Instruction::SetDelay { x: 5 }));
    assert_eq!(decode(0xF518), Some(Instruction::SetSound { x: 5 }));
    assert_eq!(decode(0xF51E), Some(Instruction::AddIndex { x: 5 }));
    assert_eq!(decode(0xF529), Some(Instruction::LoadGlyph { x: 5 }));
    assert_eq!(decode(0xF533), Some(Instruction::StoreDecimal { x: 5 }));
    assert_eq!(decode(0xF555), Some(Instruction::StoreRegisters { x: 5 }));
    assert_eq!(decode(0xF565), Some(Instruction::LoadRegisters { x: 5 }));
}

#[test]
fn rejects_unknown_system_selectors() {
    assert_eq!(decode(0xF000), None);
    assert_eq!(decode(0xF5FF), None);
    assert_eq!(decode(0xF508), None);
    assert_eq!(decode(0xF564), None);
}

#[test]
fn exactly_the_table_is_decoded() {
    let mut known: u32 = 0;
    for word in 0u32..=0xFFFF {
        if decode(word as u16).is_some() {
            known += 1;
        }
    }
    // 2 in family 0; 4096 each in families 1, 2, 3, 4, 6, 7, A, B, C, D;
    // 256 each in families 5 and 9; 9 * 256 in family 8; 2 * 16 in family
    // E; 9 * 16 in family F.
    assert_eq!(known, 2 + 10 * 4096 + 2 * 256 + 9 * 256 + 2 * 16 + 9 * 16);
}
