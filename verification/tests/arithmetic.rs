use chip8::{Cpu, Quirks};

fn machine_for_arithmetic(words: &[u16]) -> Cpu {
    let mut program = Vec::new();
    for word in words {
        program.push((word >> 8) as u8);
        program.push((word & 0xFF) as u8);
    }
    Cpu::initialize(&program).unwrap()
}

fn run_all(words: &[u16]) -> Cpu {
    let mut cpu = machine_for_arithmetic(words);
    for _ in words {
        cpu.step_with(0).unwrap();
    }
    cpu
}

#[test]
fn add_with_carry_wraps_and_sets_the_flag() {
    let cpu = run_all(&[0x60FF, 0x6101, 0x8014]);
    assert_eq!(cpu.registers()[0], 0x00);
    assert_eq!(cpu.registers()[0xF], 1);
    assert_eq!(cpu.registers()[1], 0x01);
}

#[test]
fn add_without_carry_clears_the_flag() {
    let cpu = run_all(&[0x6F01, 0x6064, 0x6132, 0x8014]);
    assert_eq!(cpu.registers()[0], 150);
    assert_eq!(cpu.registers()[0xF], 0);
}

#[test]
fn add_of_255_and_255() {
    let cpu = run_all(&[0x60FF, 0x61FF, 0x8014]);
    assert_eq!(cpu.registers()[0], 0xFE);
    assert_eq!(cpu.registers()[0xF], 1);
}

#[test]
fn sub_with_borrow_wraps_and_clears_the_flag() {
    let cpu = run_all(&[0x6F01, 0x6005, 0x610A, 0x8015]);
    assert_eq!(cpu.registers()[0], 0xFB);
    assert_eq!(cpu.registers()[0xF], 0);
}

#[test]
fn sub_without_borrow_sets_the_flag() {
    let cpu = run_all(&[0x600A, 0x6105, 0x8015]);
    assert_eq!(cpu.registers()[0], 0x05);
    assert_eq!(cpu.registers()[0xF], 1);
}

#[test]
fn sub_of_equal_values_is_zero_without_borrow() {
    let cpu = run_all(&[0x6042, 0x6142, 0x8015]);
    assert_eq!(cpu.registers()[0], 0x00);
    assert_eq!(cpu.registers()[0xF], 1);
}

#[test]
fn reversed_sub_takes_vx_from_vy() {
    let cpu = run_all(&[0x6005, 0x610A, 0x8017]);
    assert_eq!(cpu.registers()[0], 0x05);
    assert_eq!(cpu.registers()[1], 0x0A);
    assert_eq!(cpu.registers()[0xF], 1);
}

#[test]
fn reversed_sub_with_borrow() {
    let cpu = run_all(&[0x6F01, 0x600A, 0x6105, 0x8017]);
    assert_eq!(cpu.registers()[0], 0xFB);
    assert_eq!(cpu.registers()[0xF], 0);
}

#[test]
fn add_byte_wraps_and_leaves_the_flag() {
    let cpu = run_all(&[0x6F07, 0x60FF, 0x7002]);
    assert_eq!(cpu.registers()[0], 0x01);
    assert_eq!(cpu.registers()[0xF], 0x07);
}

#[test]
fn move_copies_the_value() {
    let cpu = run_all(&[0x6A33, 0x83A0]);
    assert_eq!(cpu.registers()[3], 0x33);
    assert_eq!(cpu.registers()[0xA], 0x33);
}

#[test]
fn bitwise_instructions_work_on_register_values() {
    // The register numbers are 1 and 2; the values are 0b1100 and 0b1010.
    let or = run_all(&[0x610C, 0x620A, 0x8121]);
    assert_eq!(or.registers()[1], 0b1110);
    let and = run_all(&[0x610C, 0x620A, 0x8122]);
    assert_eq!(and.registers()[1], 0b1000);
    let xor = run_all(&[0x610C, 0x620A, 0x8123]);
    assert_eq!(xor.registers()[1], 0b0110);
    assert_eq!(xor.registers()[2], 0b1010);
}

#[test]
fn bitwise_instructions_leave_the_flag() {
    let cpu = run_all(&[0x6F09, 0x61F0, 0x620F, 0x8121, 0x8122, 0x8123]);
    assert_eq!(cpu.registers()[0xF], 0x09);
    assert_eq!(cpu.registers()[1], (((0xF0 | 0x0F) & 0x0F) ^ 0x0F) as u8);
}

#[test]
fn shift_right_takes_vy_by_default() {
    let cpu = run_all(&[0x6008, 0x6105, 0x8016]);
    assert_eq!(cpu.registers()[0], 0x02);
    assert_eq!(cpu.registers()[1], 0x05);
    assert_eq!(cpu.registers()[0xF], 1);
}

#[test]
fn shift_right_of_an_even_value_clears_the_flag() {
    let cpu = run_all(&[0x6F01, 0x61FE, 0x8016]);
    assert_eq!(cpu.registers()[0], 0x7F);
    assert_eq!(cpu.registers()[0xF], 0);
}

#[test]
fn shift_left_takes_vy_by_default() {
    let cpu = run_all(&[0x6008, 0x6181, 0x801E]);
    assert_eq!(cpu.registers()[0], 0x02);
    assert_eq!(cpu.registers()[1], 0x81);
    assert_eq!(cpu.registers()[0xF], 1);
}

#[test]
fn shift_left_without_overflow_clears_the_flag() {
    let cpu = run_all(&[0x6F01, 0x6141, 0x801E]);
    assert_eq!(cpu.registers()[0], 0x82);
    assert_eq!(cpu.registers()[0xF], 0);
}

#[test]
fn shifts_in_place_when_the_quirk_is_set() {
    let program = [0x60, 0x09, 0x61, 0xFF, 0x80, 0x16, 0x62, 0xC0, 0x82, 0x1E];
    let mut cpu = Cpu::initialize_with(&program, Quirks { shift_in_place: true }).unwrap();
    assert!(cpu.quirks().shift_in_place);
    for _ in 0..3 {
        cpu.step_with(0).unwrap();
    }
    assert_eq!(cpu.registers()[0], 0x04);
    assert_eq!(cpu.registers()[1], 0xFF);
    assert_eq!(cpu.registers()[0xF], 1);
    for _ in 0..2 {
        cpu.step_with(0).unwrap();
    }
    assert_eq!(cpu.registers()[2], 0x80);
    assert_eq!(cpu.registers()[1], 0xFF);
    assert_eq!(cpu.registers()[0xF], 1);
}

#[test]
fn a_result_written_to_vf_replaces_the_flag() {
    // 0xFF + 0x01 carries, but the sum is stored after the flag.
    let cpu = run_all(&[0x6FFF, 0x6101, 0x8F14]);
    assert_eq!(cpu.registers()[0xF], 0x00);
    let cpu = run_all(&[0x6F03, 0x6101, 0x8F15]);
    assert_eq!(cpu.registers()[0xF], 0x02);
}

#[test]
fn operands_are_read_before_the_flag_is_written() {
    // VF is the right operand: 0x10 + 0xF0 = 0x100.
    let cpu = run_all(&[0x6FF0, 0x6010, 0x80F4]);
    assert_eq!(cpu.registers()[0], 0x00);
    assert_eq!(cpu.registers()[0xF], 1);
}

#[test]
fn random_is_masked_by_the_byte() {
    let mut cpu = machine_for_arithmetic(&[0xC00F, 0xC1F0, 0xC200, 0xC3FF]);
    for _ in 0..4 {
        cpu.step_with(0xAB).unwrap();
    }
    assert_eq!(cpu.registers()[0], 0x0B);
    assert_eq!(cpu.registers()[1], 0xA0);
    assert_eq!(cpu.registers()[2], 0x00);
    assert_eq!(cpu.registers()[3], 0xAB);
    assert_eq!(cpu.program_counter(), 0x208);
}

#[test]
fn a_drawn_random_byte_is_masked_too() {
    for _ in 0..200 {
        let mut cpu = machine_for_arithmetic(&[0x60FF, 0xC00F, 0x61FF, 0xC100]);
        for _ in 0..4 {
            cpu.step().unwrap();
        }
        assert!(cpu.registers()[0] <= 0x0F);
        assert_eq!(cpu.registers()[1], 0x00);
    }
}

#[test]
fn drawn_random_bytes_differ() {
    let mut seen = [false; 256];
    for _ in 0..2000 {
        let mut cpu = machine_for_arithmetic(&[0xC0FF]);
        cpu.step().unwrap();
        seen[cpu.registers()[0] as usize] = true;
    }
    let distinct = seen.iter().filter(|&&hit| hit).count();
    assert!(distinct > 100, "only {} distinct bytes in 2000 draws", distinct);
    assert!(seen[128..].iter().any(|&hit| hit));
}

#[test]
fn step_only_draws_for_the_random_instruction() {
    let mut with = machine_for_arithmetic(&[0x6012, 0x7003, 0x8004]);
    let mut without = machine_for_arithmetic(&[0x6012, 0x7003, 0x8004]);
    for _ in 0..3 {
        with.step().unwrap();
        without.step_with(0x5A).unwrap();
    }
    assert_eq!(with.registers(), without.registers());
    assert_eq!(with.program_counter(), without.program_counter());
}
