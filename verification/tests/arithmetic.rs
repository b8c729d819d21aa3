use chip8::{Cpu, Fault};

const NO_KEYS: [bool; 16] = [false; 16];

fn boot(program: &[u8]) -> Cpu {
    match Cpu::new(program.to_vec()) {
        Ok(cpu) => cpu,
        Err(fault) => panic!("program refused: {:?}", fault),
    }
}

fn run(cpu: &mut Cpu, steps: usize) {
    for _ in 0..steps {
        assert_eq!(cpu.tick(NO_KEYS), Ok(()));
    }
}

#[test]
fn load_immediate_reaches_every_register() {
    for x in 0..16u8 {
        for kk in [0x00u8, 0x01, 0x7F, 0x80, 0xFF] {
            let mut cpu = boot(&[0x60 | x, kk]);
            run(&mut cpu, 1);
            assert_eq!(cpu.registers()[x as usize], kk);
            assert_eq!(cpu.pc(), 0x202);
            for other in 0..16usize {
                if other != x as usize {
                    assert_eq!(cpu.registers()[other], 0);
                }
            }
        }
    }
}

#[test]
fn add_immediate_wraps_and_leaves_the_flag() {
    let mut cpu = boot(&[0x61, 0xFF, 0x6F, 0x07, 0x71, 0x02]);
    run(&mut cpu, 3);
    assert_eq!(cpu.registers()[1], 0x01);
    assert_eq!(cpu.registers()[0xF], 0x07);
}

#[test]
fn add_registers_with_carry() {
    let mut cpu = boot(&[0x61, 250, 0x62, 10, 0x81, 0x24]);
    run(&mut cpu, 3);
    assert_eq!(cpu.registers()[1], 4);
    assert_eq!(cpu.registers()[2], 10);
    assert_eq!(cpu.registers()[0xF], 1);
}

#[test]
fn add_registers_without_carry() {
    let mut cpu = boot(&[0x61, 10, 0x62, 10, 0x6F, 1, 0x81, 0x24]);
    run(&mut cpu, 4);
    assert_eq!(cpu.registers()[1], 20);
    assert_eq!(cpu.registers()[0xF], 0);
}

#[test]
fn add_registers_for_every_pair_of_bytes() {
    for a in 0..=255u8 {
        for b in [0u8, 1, 5, 127, 128, 200, 255] {
            let mut cpu = boot(&[0x63, a, 0x64, b, 0x83, 0x44]);
            run(&mut cpu, 3);
            let sum = a as u16 + b as u16;
            assert_eq!(cpu.registers()[3], (sum % 256) as u8);
            assert_eq!(cpu.registers()[0xF], if sum > 255 { 1 } else { 0 });
        }
    }
}

#[test]
fn add_into_the_flag_register_keeps_the_carry() {
    let mut cpu = boot(&[0x6F, 200, 0x62, 100, 0x8F, 0x24]);
    run(&mut cpu, 3);
    assert_eq!(cpu.registers()[0xF], 1);
    let mut cpu = boot(&[0x6F, 20, 0x62, 10, 0x8F, 0x24]);
    run(&mut cpu, 3);
    assert_eq!(cpu.registers()[0xF], 0);
}

#[test]
fn subtract_with_borrow() {
    let mut cpu = boot(&[0x61, 5, 0x62, 10, 0x81, 0x25]);
    run(&mut cpu, 3);
    assert_eq!(cpu.registers()[1], 251);
    assert_eq!(cpu.registers()[0xF], 0);
}

#[test]
fn subtract_without_borrow() {
    let mut cpu = boot(&[0x61, 10, 0x62, 5, 0x81, 0x25]);
    run(&mut cpu, 3);
    assert_eq!(cpu.registers()[1], 5);
    assert_eq!(cpu.registers()[0xF], 1);
}

#[test]
fn subtract_equal_values_clears_the_flag() {
    let mut cpu = boot(&[0x61, 9, 0x62, 9, 0x6F, 1, 0x81, 0x25]);
    run(&mut cpu, 4);
    assert_eq!(cpu.registers()[1], 0);
    assert_eq!(cpu.registers()[0xF], 0);
}

#[test]
fn subtract_reads_the_flag_after_setting_it() {
    // VF is set to 1 (7 > 3) before V1 - VF is taken.
    let mut cpu = boot(&[0x61, 7, 0x6F, 3, 0x81, 0xF5]);
    run(&mut cpu, 3);
    assert_eq!(cpu.registers()[0xF], 1);
    assert_eq!(cpu.registers()[1], 6);
}

#[test]
fn reverse_subtract() {
    let mut cpu = boot(&[0x61, 5, 0x62, 10, 0x81, 0x27]);
    run(&mut cpu, 3);
    assert_eq!(cpu.registers()[1], 5);
    assert_eq!(cpu.registers()[0xF], 1);
    let mut cpu = boot(&[0x61, 10, 0x62, 5, 0x81, 0x27]);
    run(&mut cpu, 3);
    assert_eq!(cpu.registers()[1], 251);
    assert_eq!(cpu.registers()[0xF], 0);
}

#[test]
fn shift_right_moves_the_low_bit_to_the_flag() {
    let mut cpu = boot(&[0x61, 0x05, 0x81, 0x06]);
    run(&mut cpu, 2);
    assert_eq!(cpu.registers()[1], 0x02);
    assert_eq!(cpu.registers()[0xF], 1);
    let mut cpu = boot(&[0x61, 0xFE, 0x6F, 1, 0x81, 0x26]);
    run(&mut cpu, 3);
    assert_eq!(cpu.registers()[1], 0x7F);
    assert_eq!(cpu.registers()[0xF], 0);
}

#[test]
fn shift_left_moves_the_high_bit_to_the_flag() {
    let mut cpu = boot(&[0x61, 0x81, 0x81, 0x0E]);
    run(&mut cpu, 2);
    assert_eq!(cpu.registers()[1], 0x02);
    assert_eq!(cpu.registers()[0xF], 1);
    let mut cpu = boot(&[0x61, 0x41, 0x6F, 1, 0x81, 0x0E]);
    run(&mut cpu, 3);
    assert_eq!(cpu.registers()[1], 0x82);
    assert_eq!(cpu.registers()[0xF], 0);
}

#[test]
fn shifts_of_the_flag_register_shift_the_flag_bit() {
    // VF := VF & 1 = 1, then VF := VF >> 1 = 0.
    let mut cpu = boot(&[0x6F, 0x03, 0x8F, 0x06]);
    run(&mut cpu, 2);
    assert_eq!(cpu.registers()[0xF], 0);
    // VF := VF >> 7 = 1, then VF := VF << 1 = 2.
    let mut cpu = boot(&[0x6F, 0x80, 0x8F, 0x0E]);
    run(&mut cpu, 2);
    assert_eq!(cpu.registers()[0xF], 2);
}

#[test]
fn move_and_bitwise_operations() {
    let mut cpu = boot(&[0x61, 0xCC, 0x62, 0xAA, 0x83, 0x10, 0x83, 0x21]);
    run(&mut cpu, 4);
    assert_eq!(cpu.registers()[3], 0xEE);
    let mut cpu = boot(&[0x61, 0xCC, 0x62, 0xAA, 0x81, 0x22]);
    run(&mut cpu, 3);
    assert_eq!(cpu.registers()[1], 0x88);
    let mut cpu = boot(&[0x61, 0xCC, 0x62, 0xAA, 0x81, 0x23]);
    run(&mut cpu, 3);
    assert_eq!(cpu.registers()[1], 0x66);
    assert_eq!(cpu.registers()[0xF], 0);
}

#[test]
fn random_byte_is_masked() {
    let mut cpu = boot(&[0x61, 0x55, 0xC1, 0x00]);
    run(&mut cpu, 2);
    assert_eq!(cpu.registers()[1], 0);
    for _ in 0..64 {
        let mut cpu = boot(&[0xC2, 0x0F]);
        run(&mut cpu, 1);
        assert!(cpu.registers()[2] <= 0x0F);
        assert_eq!(cpu.pc(), 0x202);
    }
}

#[test]
fn random_instruction_uses_the_given_byte() {
    let mut cpu = boot(&[0xC3, 0xF0, 0xC4, 0xFF]);
    assert_eq!(cpu.tick_with(NO_KEYS, 0xAB), Ok(()));
    assert_eq!(cpu.registers()[3], 0xA0);
    assert_eq!(cpu.tick_with(NO_KEYS, 0xFF), Ok(()));
    assert_eq!(cpu.registers()[4], 0xFF);
}

#[test]
fn given_byte_is_ignored_by_other_instructions() {
    let mut a = boot(&[0x61, 0x12, 0x71, 0x01]);
    let mut b = boot(&[0x61, 0x12, 0x71, 0x01]);
    for _ in 0..2 {
        assert_eq!(a.tick_with(NO_KEYS, 0x00), Ok(()));
        assert_eq!(b.tick_with(NO_KEYS, 0xFF), Ok(()));
    }
    assert_eq!(a.registers(), b.registers());
    assert_eq!(a.pc(), b.pc());
}

#[test]
fn index_register_instructions() {
    let mut cpu = boot(&[0xA1, 0x23, 0x61, 0x10, 0xF1, 0x1E]);
    run(&mut cpu, 1);
    assert_eq!(cpu.index(), 0x123);
    run(&mut cpu, 2);
    assert_eq!(cpu.index(), 0x133);
}

#[test]
fn glyph_address_is_five_times_the_digit() {
    let mut cpu = boot(&[0x61, 0x0A, 0xF1, 0x29]);
    run(&mut cpu, 2);
    assert_eq!(cpu.index(), 50);
    let mut cpu = boot(&[0x61, 0xFF, 0xF1, 0x29]);
    run(&mut cpu, 2);
    assert_eq!(cpu.index(), 1275);
}

#[test]
fn index_overflow_is_a_fault() {
    // V0 = 0xFF; I = 0xFFF; loop: I += V0; jump to loop.
    let mut cpu = boot(&[0x60, 0xFF, 0xAF, 0xFF, 0xF0, 0x1E, 0x12, 0x04]);
    run(&mut cpu, 2);
    let mut adds = 0;
    loop {
        match cpu.tick(NO_KEYS) {
            Ok(()) => {
                if cpu.pc() == 0x206 {
                    adds += 1;
                }
            }
            Err(fault) => {
                assert_eq!(fault, Fault::IndexOverflow);
                break;
            }
        }
        assert!(adds <= 300);
    }
    assert_eq!(adds, 240);
    assert_eq!(cpu.index(), 0x0FFF + 240 * 255);
    assert_eq!(cpu.pc(), 0x204);
}
