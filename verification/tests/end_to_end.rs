use chip8::Cpu;

#[test]
fn draws_the_top_row_of_glyph_five_at_five_five() {
    // V0 := 5; I := 0; I := glyph of V0; draw one row at (V0, V0); loop.
    let program = [0x60, 0x05, 0xA0, 0x00, 0xF0, 0x29, 0xD0, 0x01, 0x12, 0x08];
    let mut cpu = Cpu::initialize(&program).unwrap();
    for _ in 0..50 {
        cpu.set_key(None);
        cpu.step().unwrap();
    }
    assert_eq!(cpu.program_counter(), 0x208);
    assert_eq!(cpu.registers()[0], 5);
    assert_eq!(cpu.registers()[0xF], 0);
    assert_eq!(cpu.index(), 0x50 + 25);
    // Glyph 5 starts with 0xF0: four pixels, from column 5 in row 5.
    let frame = cpu.display().frame(1, 0);
    for y in 0..32 {
        for x in 0..64 {
            let expected = if y == 5 && (5..9).contains(&x) { 1 } else { 0 };
            assert_eq!(frame[y * 64 + x], expected, "pixel ({}, {})", x, y);
            assert_eq!(cpu.display().pixel(x, y), Some(expected == 1));
        }
    }
}

#[test]
fn draws_the_whole_glyph_five_with_five_rows() {
    // As above with all five rows: 0xD015 draws at (V0, V1) = (5, 0).
    let program = [0x60, 0x05, 0xA0, 0x00, 0xF0, 0x29, 0xD0, 0x15, 0x12, 0x08];
    let mut cpu = Cpu::initialize(&program).unwrap();
    for _ in 0..10 {
        cpu.step().unwrap();
    }
    let rows: [u8; 5] = [0xF0, 0x80, 0xF0, 0x10, 0xF0];
    for y in 0..32usize {
        for x in 0..64usize {
            let inside = y < 5 && (5..13).contains(&x);
            let expected = inside && rows[y] & (0x80 >> (x - 5)) != 0;
            assert_eq!(cpu.display().pixel(x, y), Some(expected), "pixel ({}, {})", x, y);
        }
    }
}

#[test]
fn counts_down_a_loop() {
    // V0 := 10; V1 := 0; loop: V1 += 3; V0 += 255; skip if V0 == 0; jump loop; halt.
    let program = [
        0x60, 0x0A, 0x61, 0x00, 0x71, 0x03, 0x70, 0xFF, 0x30, 0x00, 0x12, 0x04, 0x12, 0x0C,
    ];
    let mut cpu = Cpu::initialize(&program).unwrap();
    let mut steps = 0;
    while cpu.program_counter() != 0x20C {
        cpu.step().unwrap();
        steps += 1;
        assert!(steps < 1000);
    }
    assert_eq!(cpu.registers()[0], 0);
    assert_eq!(cpu.registers()[1], 30);
    assert_eq!(steps, 2 + 10 * 4 - 1);
}
