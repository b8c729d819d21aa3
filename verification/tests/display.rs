use chip8::{Cpu, Fault};

const NO_KEYS: [bool; 16] = [false; 16];

fn boot(program: &[u8]) -> Cpu {
    match Cpu::new(program.to_vec()) {
        Ok(cpu) => cpu,
        Err(fault) => panic!("program refused: {:?}", fault),
    }
}

fn run(cpu: &mut Cpu, steps: usize) {
    for _ in 0..steps {
        assert_eq!(cpu.tick(NO_KEYS), Ok(()));
    }
}

fn lit(cpu: &Cpu) -> Vec<(usize, usize)> {
    let mut set = Vec::new();
    for y in 0..32 {
        for x in 0..64 {
            let cell = cpu.vmem()[x][y];
            assert!(cell <= 1);
            if cell == 1 {
                set.push((x, y));
            }
        }
    }
    set
}

// V0 = 60, V1 = 0, I = 0x20A, draw one row at (V0, V1), draw it again; 0x20A: 0xFF.
const WRAPPING_ROW: [u8; 11] = [0x60, 60, 0x61, 0, 0xA2, 0x0A, 0xD0, 0x11, 0xD0, 0x11, 0xFF];

#[test]
fn display_starts_blank() {
    let cpu = boot(&[0x00, 0xE0]);
    assert!(lit(&cpu).is_empty());
}

#[test]
fn sprite_wraps_around_the_right_edge() {
    let mut cpu = boot(&WRAPPING_ROW);
    run(&mut cpu, 4);
    assert_eq!(
        lit(&cpu),
        vec![(0, 0), (1, 0), (2, 0), (3, 0), (60, 0), (61, 0), (62, 0), (63, 0)]
    );
    assert_eq!(cpu.registers()[0xF], 0);
    assert!(cpu.vmem_changed());
}

#[test]
fn drawing_twice_erases_and_collides() {
    let mut cpu = boot(&WRAPPING_ROW);
    run(&mut cpu, 5);
    assert!(lit(&cpu).is_empty());
    assert_eq!(cpu.registers()[0xF], 1);
    assert!(cpu.vmem_changed());
}

#[test]
fn sprite_wraps_around_the_bottom_edge() {
    // V0 = 8, V1 = 31, I = 0x208, draw two rows; sprite: 0x80, 0x01.
    let mut cpu = boot(&[0x60, 8, 0x61, 31, 0xA2, 0x08, 0xD0, 0x12, 0x80, 0x01]);
    run(&mut cpu, 4);
    assert_eq!(lit(&cpu), vec![(15, 0), (8, 31)]);
}

#[test]
fn coordinates_are_taken_modulo_the_display_size() {
    // V0 = 64 + 5, V1 = 32 + 3 + 224.
    let mut cpu = boot(&[0x60, 69, 0x61, 255, 0xA2, 0x08, 0xD0, 0x11, 0xC0]);
    run(&mut cpu, 4);
    assert_eq!(lit(&cpu), vec![(5, 31), (6, 31)]);
}

#[test]
fn glyph_zero_is_drawn_from_the_font() {
    // I = glyph for V2 = 0, draw five rows at (V0, V1) = (0, 0).
    let mut cpu = boot(&[0xF2, 0x29, 0xD0, 0x15]);
    run(&mut cpu, 2);
    let mut expected = Vec::new();
    for (y, row) in [0xF0u8, 0x90, 0x90, 0x90, 0xF0].iter().enumerate() {
        for x in 0..8 {
            if (row >> (7 - x)) & 1 == 1 {
                expected.push((x as usize, y));
            }
        }
    }
    assert_eq!(lit(&cpu), expected);
    assert_eq!(cpu.registers()[0xF], 0);
}

#[test]
fn partial_overlap_sets_the_flag_and_flips_pixels() {
    // Draw 0xF0 at (0,0), then 0x3C at (0,0): columns 2 and 3 collide.
    let mut cpu = boot(&[0xA2, 0x0A, 0xD0, 0x01, 0xA2, 0x0B, 0xD0, 0x01, 0x00, 0x00, 0xF0, 0x3C]);
    run(&mut cpu, 4);
    assert_eq!(lit(&cpu), vec![(0, 0), (1, 0), (4, 0), (5, 0)]);
    assert_eq!(cpu.registers()[0xF], 1);
}

#[test]
fn drawing_without_overlap_clears_the_flag() {
    let mut cpu = boot(&[0x6F, 0x01, 0xA2, 0x06, 0xD0, 0x01, 0x81]);
    run(&mut cpu, 3);
    assert_eq!(lit(&cpu), vec![(0, 0), (7, 0)]);
    assert_eq!(cpu.registers()[0xF], 0);
}

#[test]
fn drawing_no_rows_clears_the_flag_and_marks_the_display() {
    let mut cpu = boot(&[0x6F, 0x01, 0xAF, 0xFF, 0x61, 0x01, 0xF1, 0x1E, 0xD0, 0x00]);
    run(&mut cpu, 5);
    assert_eq!(cpu.index(), 0x1000);
    assert!(lit(&cpu).is_empty());
    assert_eq!(cpu.registers()[0xF], 0);
    assert!(cpu.vmem_changed());
}

#[test]
fn sprite_positioned_by_the_flag_register_moves_with_it() {
    // Column 0 is set beforehand. The sprite 0xC0 is drawn at (VF, V1):
    // VF is cleared, the first pixel collides at column 0 and sets VF,
    // so the second pixel goes to column 1 + 1.
    let mut cpu = boot(&[
        0xA2, 0x0A, 0xD0, 0x01, 0xA2, 0x0B, 0x6F, 0x09, 0xDF, 0x11, 0x80, 0xC0,
    ]);
    run(&mut cpu, 5);
    assert_eq!(lit(&cpu), vec![(2, 0)]);
    assert_eq!(cpu.registers()[0xF], 1);
}

#[test]
fn clear_screen_blanks_the_display() {
    let mut cpu = boot(&[0xF0, 0x29, 0xD0, 0x05, 0x00, 0xE0, 0x60, 0x00]);
    run(&mut cpu, 2);
    assert!(!lit(&cpu).is_empty());
    run(&mut cpu, 1);
    assert!(lit(&cpu).is_empty());
    assert!(cpu.vmem_changed());
    run(&mut cpu, 1);
    assert!(!cpu.vmem_changed());
}

#[test]
fn only_drawing_and_clearing_mark_the_display() {
    let mut cpu = boot(&[0x60, 0x01, 0xD0, 0x01, 0x70, 0x01]);
    run(&mut cpu, 1);
    assert!(!cpu.vmem_changed());
    run(&mut cpu, 1);
    assert!(cpu.vmem_changed());
    run(&mut cpu, 1);
    assert!(!cpu.vmem_changed());
}

#[test]
fn sprite_beyond_memory_is_a_fault() {
    // I = 0xFFF, two rows would read address 0x1000.
    let mut cpu = boot(&[0xAF, 0xFF, 0xD0, 0x02]);
    run(&mut cpu, 1);
    assert_eq!(cpu.tick(NO_KEYS), Err(Fault::MemoryOutOfRange));
    assert!(lit(&cpu).is_empty());
    assert_eq!(cpu.pc(), 0x202);
    // One row at the last byte is fine.
    let mut cpu = boot(&[0xAF, 0xFF, 0xD0, 0x01]);
    run(&mut cpu, 2);
}
