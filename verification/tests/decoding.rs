use chip8::{decode, Fault, Instruction};

#[test]
fn system_family() {
    assert_eq!(decode(0x00E0), Ok(Instruction::Cls));
    assert_eq!(decode(0x00EE), Ok(Instruction::Ret));
    assert_eq!(decode(0x0000), Ok(Instruction::Sys));
    assert_eq!(decode(0x0123), Ok(Instruction::Sys));
    assert_eq!(decode(0x00E1), Ok(Instruction::Sys));
    assert_eq!(decode(0x0FFF), Ok(Instruction::Sys));
}

#[test]
fn address_instructions() {
    assert_eq!(decode(0x1ABC), Ok(Instruction::Jump { nnn: 0xABC }));
    assert_eq!(decode(0x2FFF), Ok(Instruction::Call { nnn: 0xFFF }));
    assert_eq!(decode(0xA000), Ok(Instruction::LoadIndex { nnn: 0x000 }));
    assert_eq!(decode(0xB123), Ok(Instruction::JumpOffset { nnn: 0x123 }));
}

#[test]
fn immediate_instructions() {
    assert_eq!(decode(0x3A12), Ok(Instruction::SkipEqImm { x: 0xA, kk: 0x12 }));
    assert_eq!(decode(0x4B34), Ok(Instruction::SkipNeImm { x: 0xB, kk: 0x34 }));
    assert_eq!(decode(0x6CFF), Ok(Instruction::LoadImm { x: 0xC, kk: 0xFF }));
    assert_eq!(decode(0x7D00), Ok(Instruction::AddImm { x: 0xD, kk: 0x00 }));
    assert_eq!(decode(0xCE0F), Ok(Instruction::Random { x: 0xE, kk: 0x0F }));
}

#[test]
fn register_pair_instructions() {
    assert_eq!(decode(0x5120), Ok(Instruction::SkipEqReg { x: 1, y: 2 }));
    assert_eq!(decode(0x9340), Ok(Instruction::SkipNeReg { x: 3, y: 4 }));
    assert_eq!(decode(0x8AB0), Ok(Instruction::Move { x: 0xA, y: 0xB }));
    assert_eq!(decode(0x8AB1), Ok(Instruction::Or { x: 0xA, y: 0xB }));
    assert_eq!(decode(0x8AB2), Ok(Instruction::And { x: 0xA, y: 0xB }));
    assert_eq!(decode(0x8AB3), Ok(Instruction::Xor { x: 0xA, y: 0xB }));
    assert_eq!(decode(0x8AB4), Ok(Instruction::AddReg { x: 0xA, y: 0xB }));
    assert_eq!(decode(0x8AB5), Ok(Instruction::SubReg { x: 0xA, y: 0xB }));
    assert_eq!(decode(0x8AB6), Ok(Instruction::ShiftRight { x: 0xA }));
    assert_eq!(decode(0x8AB7), Ok(Instruction::SubRev { x: 0xA, y: 0xB }));
    assert_eq!(decode(0x8ABE), Ok(Instruction::ShiftLeft { x: 0xA }));
    assert_eq!(decode(0xD125), Ok(Instruction::Draw { x: 1, y: 2, n: 5 }));
}

#[test]
fn key_and_misc_instructions() {
    assert_eq!(decode(0xE79E), Ok(Instruction::SkipKey { x: 7 }));
    assert_eq!(decode(0xE7A1), Ok(Instruction::SkipNoKey { x: 7 }));
    assert_eq!(decode(0xF807), Ok(Instruction::ReadDelay { x: 8 }));
    assert_eq!(decode(0xF80A), Ok(Instruction::WaitKey { x: 8 }));
    assert_eq!(decode(0xF815), Ok(Instruction::SetDelay { x: 8 }));
    assert_eq!(decode(0xF818), Ok(Instruction::SetSound { x: 8 }));
    assert_eq!(decode(0xF81E), Ok(Instruction::AddIndex { x: 8 }));
    assert_eq!(decode(0xF829), Ok(Instruction::Glyph { x: 8 }));
    assert_eq!(decode(0xF833), Ok(Instruction::Bcd { x: 8 }));
    assert_eq!(decode(0xF855), Ok(Instruction::Store { x: 8 }));
    assert_eq!(decode(0xF865), Ok(Instruction::Load { x: 8 }));
}

#[test]
fn undefined_selectors() {
    for n in 0x8..=0xFu16 {
        if n != 0xE {
            let word = 0x8120 | n;
            assert_eq!(decode(word), Err(Fault::UndefinedOpcode(word)));
        }
    }
    assert_eq!(decode(0xE19F), Err(Fault::UndefinedOpcode(0xE19F)));
    assert_eq!(decode(0xE1A0), Err(Fault::UndefinedOpcode(0xE1A0)));
    assert_eq!(decode(0xF100), Err(Fault::UndefinedOpcode(0xF100)));
    assert_eq!(decode(0xF1FF), Err(Fault::UndefinedOpcode(0xF1FF)));
}

#[test]
fn every_word_decodes_to_fields_in_range() {
    let mut defined = 0u32;
    for word in 0..=0xFFFFu16 {
        if let Ok(instruction) = decode(word) {
            defined += 1;
            match instruction {
                Instruction::Jump { nnn }
                | Instruction::Call { nnn }
                | Instruction::LoadIndex { nnn }
                | Instruction::JumpOffset { nnn } => assert_eq!(nnn, word & 0xFFF),
                Instruction::LoadImm { x, kk } => {
                    assert_eq!(x, ((word >> 8) & 0xF) as usize);
                    assert_eq!(kk, word as u8);
                }
                Instruction::Draw { x, y, n } => {
                    assert_eq!(x, ((word >> 8) & 0xF) as usize);
                    assert_eq!(y, ((word >> 4) & 0xF) as usize);
                    assert_eq!(n, (word & 0xF) as u8);
                }
                _ => {}
            }
        }
    }
    // 14 families of 4096 words, 9 of 16 selectors in family 8,
    // 2 of 256 in family E and 9 of 256 in family F.
    assert_eq!(defined, 13 * 4096 + 9 * 256 + 2 * 16 + 9 * 16);
}
