use chip8::{Cpu, Fault, FaultKind};

fn machine_for_memory(words: &[u16]) -> Cpu {
    let mut program = Vec::new();
    for word in words {
        program.push((word >> 8) as u8);
        program.push((word & 0xFF) as u8);
    }
    Cpu::initialize(&program).unwrap()
}

fn run_memory_program(words: &[u16]) -> Cpu {
    let mut cpu = machine_for_memory(words);
    for _ in words {
        cpu.step_with(0).unwrap();
    }
    cpu
}

#[test]
fn decimal_digits_of_255() {
    let cpu = run_memory_program(&[0x60FF, 0xA300, 0xF033]);
    assert_eq!(&cpu.memory()[0x300..0x303], &[2, 5, 5]);
    assert_eq!(cpu.index(), 0x300);
    assert_eq!(cpu.memory()[0x2FF], 0);
    assert_eq!(cpu.memory()[0x303], 0);
}

#[test]
fn decimal_digits_of_other_values() {
    for (value, digits) in [(0u16, [0u8, 0, 0]), (7, [0, 0, 7]), (42, [0, 4, 2]), (109, [1, 0, 9]),
        (200, [2, 0, 0]), (99, [0, 9, 9])] {
        let cpu = run_memory_program(&[0x6500 | value, 0xA400, 0xF533]);
        assert_eq!(&cpu.memory()[0x400..0x403], &digits);
    }
}

#[test]
fn decimal_digits_need_three_bytes_of_memory() {
    let mut cpu = machine_for_memory(&[0x60FF, 0xAFFE, 0xF033]);
    cpu.step_with(0).unwrap();
    cpu.step_with(0).unwrap();
    assert_eq!(
        cpu.step_with(0),
        Err(Fault { kind: FaultKind::MemoryOutOfBounds, opcode: Some(0xF033), pc: 0x204 })
    );
    assert_eq!(cpu.memory()[0xFFE], 0);
    assert_eq!(cpu.memory()[0xFFF], 0);
    assert_eq!(cpu.program_counter(), 0x204);

    let cpu = run_memory_program(&[0x60FF, 0xAFFD, 0xF033]);
    assert_eq!(&cpu.memory()[0xFFD..], &[2, 5, 5]);
}

#[test]
fn store_registers_writes_v0_to_vx_inclusive() {
    let cpu = run_memory_program(&[0x6011, 0x6122, 0x6233, 0x6344, 0xA300, 0xF255]);
    assert_eq!(&cpu.memory()[0x300..0x304], &[0x11, 0x22, 0x33, 0x00]);
    assert_eq!(cpu.index(), 0x300);
}

#[test]
fn store_registers_with_x_zero_writes_one_byte() {
    let cpu = run_memory_program(&[0x60AA, 0x61BB, 0xA300, 0xF055]);
    assert_eq!(&cpu.memory()[0x300..0x302], &[0xAA, 0x00]);
}

#[test]
fn store_all_registers() {
    let mut words = Vec::new();
    for x in 0u16..16 {
        words.push(0x6000 | x << 8 | (0xF0 + x));
    }
    words.push(0xA400);
    words.push(0xFF55);
    let cpu = run_memory_program(&words);
    let expected: Vec<u8> = (0u8..16).map(|x| 0xF0 + x).collect();
    assert_eq!(&cpu.memory()[0x400..0x410], &expected[..]);
    assert_eq!(cpu.memory()[0x410], 0);
}

#[test]
fn load_registers_reads_v0_to_vx_inclusive() {
    // The program itself is the data: I points at 0x200.
    let cpu = run_memory_program(&[0x6399, 0xA200, 0xF265]);
    assert_eq!(&cpu.registers()[0..4], &[0x63, 0x99, 0xA2, 0x99]);
    assert_eq!(cpu.index(), 0x200);
}

#[test]
fn load_registers_reads_the_font() {
    let cpu = run_memory_program(&[0xA050, 0xF465]);
    assert_eq!(&cpu.registers()[0..6], &[0xF0, 0x90, 0x90, 0x90, 0xF0, 0x00]);
}

#[test]
fn store_then_load_round_trips() {
    let cpu = run_memory_program(&[
        0x6012, 0x6134, 0x6256, 0xA500, 0xF255, 0x6000, 0x6100, 0x6200, 0xF265,
    ]);
    assert_eq!(&cpu.registers()[0..3], &[0x12, 0x34, 0x56]);
}

#[test]
fn store_and_load_stop_at_the_end_of_memory() {
    let cpu = run_memory_program(&[0x6077, 0xAFFF, 0xF055]);
    assert_eq!(cpu.memory()[0xFFF], 0x77);

    let mut cpu = machine_for_memory(&[0x6077, 0xAFFF, 0xF155]);
    cpu.step_with(0).unwrap();
    cpu.step_with(0).unwrap();
    assert_eq!(
        cpu.step_with(0),
        Err(Fault { kind: FaultKind::MemoryOutOfBounds, opcode: Some(0xF155), pc: 0x204 })
    );
    assert_eq!(cpu.memory()[0xFFF], 0x00);

    let mut cpu = machine_for_memory(&[0x6077, 0xAFF1, 0xFF65]);
    cpu.step_with(0).unwrap();
    cpu.step_with(0).unwrap();
    assert_eq!(
        cpu.step_with(0),
        Err(Fault { kind: FaultKind::MemoryOutOfBounds, opcode: Some(0xFF65), pc: 0x204 })
    );
    assert_eq!(cpu.registers()[0], 0x77);

    let cpu = run_memory_program(&[0x6077, 0xAFF0, 0xFF65]);
    assert_eq!(cpu.registers(), &[0u8; 16]);
}

#[test]
fn load_index_sets_i() {
    let cpu = run_memory_program(&[0xAFFF]);
    assert_eq!(cpu.index(), 0xFFF);
    let cpu = run_memory_program(&[0xA123, 0xA000]);
    assert_eq!(cpu.index(), 0x000);
}

#[test]
fn add_index_adds_the_register_value() {
    let cpu = run_memory_program(&[0x6F05, 0x6310, 0xA100, 0xF31E]);
    assert_eq!(cpu.index(), 0x110);
    assert_eq!(cpu.registers()[0xF], 0x05);
}

#[test]
fn add_index_can_pass_the_end_of_memory() {
    let mut cpu = machine_for_memory(&[0x6001, 0xAFFF, 0xF01E, 0xF055]);
    for _ in 0..3 {
        cpu.step_with(0).unwrap();
    }
    assert_eq!(cpu.index(), 0x1000);
    assert_eq!(
        cpu.step_with(0),
        Err(Fault { kind: FaultKind::MemoryOutOfBounds, opcode: Some(0xF055), pc: 0x206 })
    );
}

#[test]
fn add_index_wraps_at_sixteen_bits() {
    // 0x200: V0 := 255; 0x202: I := 0xFFF; 0x204: I += V0; 0x206: jump 0x204.
    let mut cpu = machine_for_memory(&[0x60FF, 0xAFFF, 0xF01E, 0x1204]);
    cpu.step_with(0).unwrap();
    cpu.step_with(0).unwrap();
    for k in 1u32..=241 {
        cpu.step_with(0).unwrap();
        assert_eq!(cpu.index() as u32, (0xFFF + 255 * k) % 0x10000);
        cpu.step_with(0).unwrap();
    }
    assert_eq!(cpu.index(), 14);
}

#[test]
fn glyph_address_is_font_base_plus_five_per_digit() {
    for digit in 0u16..16 {
        let cpu = run_memory_program(&[0x6400 | digit, 0xF429]);
        assert_eq!(cpu.index(), 0x50 + 5 * digit);
    }
    let cpu = run_memory_program(&[0x64FF, 0xF429]);
    assert_eq!(cpu.index(), 0x50 + 5 * 255);
}

#[test]
fn glyph_address_points_at_the_glyph() {
    let cpu = run_memory_program(&[0x600A, 0xF029, 0xF465]);
    assert_eq!(&cpu.registers()[0..5], &[0xF0, 0x90, 0xF0, 0x90, 0x90]);
}

#[test]
fn glyph_address_helper_matches() {
    assert_eq!(chip8::font::glyph_address(0), 0x50);
    assert_eq!(chip8::font::glyph_address(5), 0x69);
    assert_eq!(chip8::font::glyph_address(0xF), 0x9B);
    assert_eq!(chip8::font::glyph_address(0xFF), 0x54B);
    assert_eq!(chip8::font::FONT.len(), 80);
    assert_eq!(&chip8::font::FONT[25..30], &[0xF0, 0x80, 0xF0, 0x10, 0xF0]);
}
