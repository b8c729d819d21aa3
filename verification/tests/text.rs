use chip8::Cpu;

const NO_KEYS: [bool; 16] = [false; 16];

fn boot(program: &[u8]) -> Cpu {
    match Cpu::new(program.to_vec()) {
        Ok(cpu) => cpu,
        Err(fault) => panic!("program refused: {:?}", fault),
    }
}

fn run(cpu: &mut Cpu, steps: usize) {
    for _ in 0..steps {
        assert_eq!(cpu.tick(NO_KEYS), Ok(()));
    }
}

#[test]
fn registers_of_a_new_machine_as_text() {
    let cpu = boot(&[0x00, 0xE0]);
    assert_eq!(
        cpu.format_registers(),
        "[V[0x0]:(0), V[0x1]:(0), V[0x2]:(0), V[0x3]:(0), V[0x4]:(0), V[0x5]:(0), \
         V[0x6]:(0), V[0x7]:(0), V[0x8]:(0), V[0x9]:(0), V[0xA]:(0), V[0xB]:(0), \
         V[0xC]:(0), V[0xD]:(0), V[0xE]:(0), V[0xF]:(0)]"
    );
}

#[test]
fn register_values_are_written_in_decimal() {
    let mut cpu = boot(&[0x60, 7, 0x61, 42, 0x6A, 100, 0x6F, 255, 0x65, 10]);
    run(&mut cpu, 5);
    assert_eq!(
        cpu.format_registers(),
        "[V[0x0]:(7), V[0x1]:(42), V[0x2]:(0), V[0x3]:(0), V[0x4]:(0), V[0x5]:(10), \
         V[0x6]:(0), V[0x7]:(0), V[0x8]:(0), V[0x9]:(0), V[0xA]:(100), V[0xB]:(0), \
         V[0xC]:(0), V[0xD]:(0), V[0xE]:(0), V[0xF]:(255)]"
    );
}

#[test]
fn machine_as_text() {
    // V0 = 200; delay = V0; V1 = 9; sound = V1; I = 0xABC.
    let mut cpu = boot(&[0x60, 200, 0xF0, 0x15, 0x61, 9, 0xF1, 0x18, 0xAA, 0xBC]);
    run(&mut cpu, 5);
    let expected = format!(
        "\tRegisters: {}\n\tI: 0x{:x}\n\tProgram Counter: 0x{:x}\n\tDelay Timer: {}\n\tSound Timer: {}\n",
        cpu.format_registers(),
        0xABC,
        0x20A,
        200,
        9
    );
    assert_eq!(cpu.to_text(), expected);
    assert!(cpu.to_text().contains("\tI: 0xabc\n\tProgram Counter: 0x20a\n"));
}

#[test]
fn small_numbers_have_one_digit() {
    let mut cpu = boot(&[0x1F, 0xFE]);
    let text = cpu.to_text();
    assert!(text.contains("\tI: 0x0\n\tProgram Counter: 0x200\n\tDelay Timer: 0\n\tSound Timer: 0\n"));
    run(&mut cpu, 1);
    assert!(cpu.to_text().contains("\tProgram Counter: 0xffe\n"));
}
