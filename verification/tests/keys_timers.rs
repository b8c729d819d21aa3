use chip8::{Cpu, Fault};

const NO_KEYS: [bool; 16] = [false; 16];

fn boot(program: &[u8]) -> Cpu {
    match Cpu::new(program.to_vec()) {
        Ok(cpu) => cpu,
        Err(fault) => panic!("program refused: {:?}", fault),
    }
}

fn run(cpu: &mut Cpu, steps: usize) {
    for _ in 0..steps {
        assert_eq!(cpu.tick(NO_KEYS), Ok(()));
    }
}

fn pressed(keys: &[usize]) -> [bool; 16] {
    let mut snapshot = [false; 16];
    for key in keys {
        snapshot[*key] = true;
    }
    snapshot
}

#[test]
fn key_wait_blocks_until_a_key_is_pressed() {
    // 0x200: wait for key into V3; 0x202: V4 = 0x11.
    let mut cpu = boot(&[0xF3, 0x0A, 0x64, 0x11]);
    run(&mut cpu, 1);
    assert_eq!(cpu.pc(), 0x202);
    assert_eq!(cpu.awaiting_key(), Some(3));
    run(&mut cpu, 1);
    assert_eq!(cpu.pc(), 0x202);
    assert_eq!(cpu.registers()[3], 0);
    assert_eq!(cpu.registers()[4], 0);
    assert_eq!(cpu.awaiting_key(), Some(3));
    assert_eq!(cpu.tick(pressed(&[7])), Ok(()));
    assert_eq!(cpu.registers()[3], 7);
    assert_eq!(cpu.awaiting_key(), None);
    assert_eq!(cpu.pc(), 0x202);
    assert_eq!(cpu.registers()[4], 0);
    run(&mut cpu, 1);
    assert_eq!(cpu.registers()[4], 0x11);
    assert_eq!(cpu.pc(), 0x204);
}

#[test]
fn lowest_pressed_key_wins() {
    let mut cpu = boot(&[0xF3, 0x0A]);
    run(&mut cpu, 1);
    assert_eq!(cpu.tick(pressed(&[0xE, 0x5, 0x9])), Ok(()));
    assert_eq!(cpu.registers()[3], 5);
    let mut cpu = boot(&[0xF0, 0x0A]);
    run(&mut cpu, 1);
    assert_eq!(cpu.tick([true; 16]), Ok(()));
    assert_eq!(cpu.registers()[0], 0);
    assert_eq!(cpu.awaiting_key(), None);
}

#[test]
fn key_pressed_during_the_wait_instruction_is_not_taken() {
    let mut cpu = boot(&[0xF3, 0x0A]);
    assert_eq!(cpu.tick(pressed(&[2])), Ok(()));
    assert_eq!(cpu.awaiting_key(), Some(3));
    assert_eq!(cpu.registers()[3], 0);
}

#[test]
fn skip_if_key_pressed() {
    let mut cpu = boot(&[0x61, 0x0B, 0xE1, 0x9E, 0x00, 0x00, 0xE1, 0x9E]);
    run(&mut cpu, 1);
    assert_eq!(cpu.tick(pressed(&[0xB])), Ok(()));
    assert_eq!(cpu.pc(), 0x206);
    assert_eq!(cpu.tick(pressed(&[0xA])), Ok(()));
    assert_eq!(cpu.pc(), 0x208);
}

#[test]
fn skip_if_key_not_pressed() {
    let mut cpu = boot(&[0x61, 0x0B, 0xE1, 0xA1, 0x00, 0x00, 0xE1, 0xA1]);
    run(&mut cpu, 1);
    assert_eq!(cpu.tick(pressed(&[0xA])), Ok(()));
    assert_eq!(cpu.pc(), 0x206);
    assert_eq!(cpu.tick(pressed(&[0xB])), Ok(()));
    assert_eq!(cpu.pc(), 0x208);
}

#[test]
fn keys_are_those_of_the_current_step() {
    let mut cpu = boot(&[0xE0, 0x9E, 0xE0, 0x9E]);
    assert_eq!(cpu.tick(pressed(&[0])), Ok(()));
    assert_eq!(cpu.pc(), 0x204);
    let mut cpu = boot(&[0x60, 0x00, 0xE0, 0x9E]);
    assert_eq!(cpu.tick(pressed(&[0])), Ok(()));
    assert_eq!(cpu.tick(NO_KEYS), Ok(()));
    assert_eq!(cpu.pc(), 0x204);
}

#[test]
fn key_number_above_fifteen_is_a_fault() {
    let mut cpu = boot(&[0x61, 0x10, 0xE1, 0x9E]);
    run(&mut cpu, 1);
    assert_eq!(cpu.tick([true; 16]), Err(Fault::KeyOutOfRange));
    assert_eq!(cpu.pc(), 0x202);
    let mut cpu = boot(&[0x61, 0xFF, 0xE1, 0xA1]);
    run(&mut cpu, 1);
    assert_eq!(cpu.tick(NO_KEYS), Err(Fault::KeyOutOfRange));
}

#[test]
fn timers_are_set_and_read() {
    let mut cpu = boot(&[0x61, 0x2A, 0xF1, 0x15, 0xF1, 0x18, 0xF2, 0x07]);
    run(&mut cpu, 4);
    assert_eq!(cpu.delay_timer(), 0x2A);
    assert_eq!(cpu.sound_timer(), 0x2A);
    assert_eq!(cpu.registers()[2], 0x2A);
}

#[test]
fn delay_timer_reaches_zero_after_sixty_steps() {
    // V0 = 5; delay = V0; then jump to self.
    let mut cpu = boot(&[0x60, 0x05, 0xF0, 0x15, 0x12, 0x04]);
    run(&mut cpu, 2);
    assert_eq!(cpu.delay_timer(), 5);
    run(&mut cpu, 60);
    assert_eq!(cpu.delay_timer(), 0);
}

#[test]
fn timers_decrement_on_every_twelfth_step() {
    // V0 = 200; delay = V0; sound = V0; then jump to self.
    let mut cpu = boot(&[0x60, 200, 0xF0, 0x15, 0xF0, 0x18, 0x12, 0x06]);
    run(&mut cpu, 3);
    for step in 4..=120usize {
        run(&mut cpu, 1);
        let expected = 200 - (step / 12) as u8;
        assert_eq!(cpu.delay_timer(), expected);
        assert_eq!(cpu.sound_timer(), expected);
    }
}

#[test]
fn timers_stop_at_zero() {
    let mut cpu = boot(&[0x60, 0x01, 0xF0, 0x15, 0x12, 0x04]);
    run(&mut cpu, 12);
    assert_eq!(cpu.delay_timer(), 0);
    assert_eq!(cpu.sound_timer(), 0);
    run(&mut cpu, 48);
    assert_eq!(cpu.delay_timer(), 0);
    assert_eq!(cpu.sound_timer(), 0);
}

#[test]
fn timer_is_decremented_before_the_instruction_reads_it() {
    // Eleven steps, the second of which sets the delay timer to 9; the
    // twelfth reads the timer.
    let mut program = vec![0x60, 0x09, 0xF0, 0x15];
    for _ in 0..9 {
        program.extend_from_slice(&[0x00, 0x00]);
    }
    program.extend_from_slice(&[0xF1, 0x07]);
    let mut cpu = boot(&program);
    run(&mut cpu, 11);
    assert_eq!(cpu.delay_timer(), 9);
    run(&mut cpu, 1);
    assert_eq!(cpu.delay_timer(), 8);
    assert_eq!(cpu.registers()[1], 8);
}

#[test]
fn timers_hold_while_the_machine_waits() {
    // V0 = 3; delay = V0; wait for key into V1; then jump to self.
    let mut cpu = boot(&[0x60, 0x03, 0xF0, 0x15, 0xF1, 0x0A, 0x12, 0x06]);
    run(&mut cpu, 3);
    assert_eq!(cpu.awaiting_key(), Some(1));
    // Steps 4 to 13 are spent waiting and take in the twelfth step.
    run(&mut cpu, 10);
    assert_eq!(cpu.delay_timer(), 3);
    assert_eq!(cpu.tick(pressed(&[1])), Ok(()));
    assert_eq!(cpu.delay_timer(), 3);
    // Step 24 is the next twelfth step.
    run(&mut cpu, 9);
    assert_eq!(cpu.delay_timer(), 3);
    run(&mut cpu, 1);
    assert_eq!(cpu.delay_timer(), 2);
}
