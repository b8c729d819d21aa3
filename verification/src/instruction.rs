//! Instruction words and their decoded form.

use vstd::prelude::*;
use crate::fault::Fault;

verus! {

/// What an executed instruction asks of the program counter.
#[derive(Clone, Copy, Debug, PartialEq, Eq, Structural)]
pub enum InstructionOrd {
    /// Go on with the following instruction.
    Next,
    /// Skip the following instruction.
    Skip,
    /// Continue at the given address.
    Jump(u16),
}

/// A decoded instruction. `x` and `y` name registers, `kk` is an immediate
/// byte, `n` an immediate nibble and `nnn` a twelve-bit address.
#[derive(Clone, Copy, Debug, PartialEq, Eq, Structural)]
pub enum Instruction {
    /// `0nnn` other than `00E0` and `00EE`: ignored.
    Sys,
    /// `00E0`: clear the display.
    Cls,
    /// `00EE`: return from a subroutine.
    Ret,
    /// `1nnn`: jump to `nnn`.
    Jump { nnn: u16 },
    /// `2nnn`: call the subroutine at `nnn`.
    Call { nnn: u16 },
    /// `3xkk`: skip if `Vx == kk`.
    SkipEqImm { x: usize, kk: u8 },
    /// `4xkk`: skip if `Vx != kk`.
    SkipNeImm { x: usize, kk: u8 },
    /// `5xy_`: skip if `Vx == Vy`.
    SkipEqReg { x: usize, y: usize },
    /// `6xkk`: `Vx := kk`.
    LoadImm { x: usize, kk: u8 },
    /// `7xkk`: `Vx := Vx + kk`, wrapping, flag untouched.
    AddImm { x: usize, kk: u8 },
    /// `8xy0`: `Vx := Vy`.
    Move { x: usize, y: usize },
    /// `8xy1`: `Vx := Vx | Vy`.
    Or { x: usize, y: usize },
    /// `8xy2`: `Vx := Vx & Vy`.
    And { x: usize, y: usize },
    /// `8xy3`: `Vx := Vx ^ Vy`.
    Xor { x: usize, y: usize },
    /// `8xy4`: `Vx := Vx + Vy`, `VF :=` carry.
    AddReg { x: usize, y: usize },
    /// `8xy5`: `VF := Vx > Vy`, `Vx := Vx - Vy`.
    SubReg { x: usize, y: usize },
    /// `8xy6`: `VF :=` lowest bit of `Vx`, `Vx := Vx >> 1`.
    ShiftRight { x: usize },
    /// `8xy7`: `VF := Vy > Vx`, `Vx := Vy - Vx`.
    SubRev { x: usize, y: usize },
    /// `8xyE`: `VF :=` highest bit of `Vx`, `Vx := Vx << 1`.
    ShiftLeft { x: usize },
    /// `9xy_`: skip if `Vx != Vy`.
    SkipNeReg { x: usize, y: usize },
    /// `Annn`: `I := nnn`.
    LoadIndex { nnn: u16 },
    /// `Bnnn`: jump to `nnn + V0`.
    JumpOffset { nnn: u16 },
    /// `Cxkk`: `Vx :=` random byte `& kk`.
    Random { x: usize, kk: u8 },
    /// `Dxyn`: draw the `n`-row sprite at `I` at `(Vx, Vy)`.
    Draw { x: usize, y: usize, n: u8 },
    /// `Ex9E`: skip if the key numbered `Vx` is pressed.
    SkipKey { x: usize },
    /// `ExA1`: skip if the key numbered `Vx` is not pressed.
    SkipNoKey { x: usize },
    /// `Fx07`: `Vx :=` delay timer.
    ReadDelay { x: usize },
    /// `Fx0A`: wait for a key and store its number in `Vx`.
    WaitKey { x: usize },
    /// `Fx15`: delay timer `:= Vx`.
    SetDelay { x: usize },
    /// `Fx18`: sound timer `:= Vx`.
    SetSound { x: usize },
    /// `Fx1E`: `I := I + Vx`.
    AddIndex { x: usize },
    /// `Fx29`: `I :=` address of the glyph for `Vx`.
    Glyph { x: usize },
    /// `Fx33`: store the decimal digits of `Vx` at `I`, `I+1`, `I+2`.
    Bcd { x: usize },
    /// `Fx55`: store `V0..=Vx` at `I..=I+x`.
    Store { x: usize },
    /// `Fx65`: load `V0..=Vx` from `I..=I+x`.
    Load { x: usize },
}

/// The family selector: bits 12 to 15 of the word.
pub open spec fn field_top(op: u16) -> int {
    op as int / 4096
}

/// Register index `x`: bits 8 to 11 of the word.
pub open spec fn field_x(op: u16) -> usize {
    ((op as int / 256) % 16) as usize
}

/// Register index `y`: bits 4 to 7 of the word.
pub open spec fn field_y(op: u16) -> usize {
    ((op as int / 16) % 16) as usize
}

/// Immediate byte `kk`: the low byte of the word.
pub open spec fn field_kk(op: u16) -> u8 {
    (op as int % 256) as u8
}

/// Immediate nibble `n`: the low four bits of the word.
pub open spec fn field_n(op: u16) -> u8 {
    (op as int % 16) as u8
}

/// Address `nnn`: the low twelve bits of the word.
pub open spec fn field_nnn(op: u16) -> u16 {
    (op as int % 4096) as u16
}

/// The instruction word made of the bytes `hi` and `lo`, `hi` first.
pub open spec fn word(hi: u8, lo: u8) -> u16 {
    (hi as int * 256 + lo as int) as u16
}

/// The instruction that a word stands for, or `UndefinedOpcode` with the
/// word where it stands for none.
pub open spec fn spec_decode(op: u16) -> Result<Instruction, Fault> {
    let x = field_x(op);
    let y = field_y(op);
    let kk = field_kk(op);
    let n = field_n(op);
    let nnn = field_nnn(op);
    let top = field_top(op);
    if top == 0x0 {
        if op == 0x00E0 {
            Ok(Instruction::Cls)
        } else if op == 0x00EE {
            Ok(Instruction::Ret)
        } else {
            Ok(Instruction::Sys)
        }
    } else if top == 0x1 {
        Ok(Instruction::Jump { nnn })
    } else if top == 0x2 {
        Ok(Instruction::Call { nnn })
    } else if top == 0x3 {
        Ok(Instruction::SkipEqImm { x, kk })
    } else if top == 0x4 {
        Ok(Instruction::SkipNeImm { x, kk })
    } else if top == 0x5 {
        Ok(Instruction::SkipEqReg { x, y })
    } else if top == 0x6 {
        Ok(Instruction::LoadImm { x, kk })
    } else if top == 0x7 {
        Ok(Instruction::AddImm { x, kk })
    } else if top == 0x8 {
        if n == 0x0 {
            Ok(Instruction::Move { x, y })
        } else if n == 0x1 {
            Ok(Instruction::Or { x, y })
        } else if n == 0x2 {
            Ok(Instruction::And { x, y })
        } else if n == 0x3 {
            Ok(Instruction::Xor { x, y })
        } else if n == 0x4 {
            Ok(Instruction::AddReg { x, y })
        } else if n == 0x5 {
            Ok(Instruction::SubReg { x, y })
        } else if n == 0x6 {
            Ok(Instruction::ShiftRight { x })
        } else if n == 0x7 {
            Ok(Instruction::SubRev { x, y })
        } else if n == 0xE {
            Ok(Instruction::ShiftLeft { x })
        } else {
            Err(Fault::UndefinedOpcode(op))
        }
    } else if top == 0x9 {
        Ok(Instruction::SkipNeReg { x, y })
    } else if top == 0xA {
        Ok(Instruction::LoadIndex { nnn })
    } else if top == 0xB {
        Ok(Instruction::JumpOffset { nnn })
    } else if top == 0xC {
        Ok(Instruction::Random { x, kk })
    } else if top == 0xD {
        Ok(Instruction::Draw { x, y, n })
    } else if top == 0xE {
        if kk == 0x9E {
            Ok(Instruction::SkipKey { x })
        } else if kk == 0xA1 {
            Ok(Instruction::SkipNoKey { x })
        } else {
            Err(Fault::UndefinedOpcode(op))
        }
    } else {
        if kk == 0x07 {
            Ok(Instruction::ReadDelay { x })
        } else if kk == 0x0A {
            Ok(Instruction::WaitKey { x })
        } else if kk == 0x15 {
            Ok(Instruction::SetDelay { x })
        } else if kk == 0x18 {
            Ok(Instruction::SetSound { x })
        } else if kk == 0x1E {
            Ok(Instruction::AddIndex { x })
        } else if kk == 0x29 {
            Ok(Instruction::Glyph { x })
        } else if kk == 0x33 {
            Ok(Instruction::Bcd { x })
        } else if kk == 0x55 {
            Ok(Instruction::Store { x })
        } else if kk == 0x65 {
            Ok(Instruction::Load { x })
        } else {
            Err(Fault::UndefinedOpcode(op))
        }
    }
}

impl Instruction {
    /// Register indices are below 16, the row count is below 16 and
    /// addresses are below 4096.
    pub open spec fn wf(self) -> bool {
        match self {
            Instruction::Sys | Instruction::Cls | Instruction::Ret => true,
            Instruction::Jump { nnn } | Instruction::Call { nnn } | Instruction::LoadIndex { nnn }
            | Instruction::JumpOffset { nnn } => nnn < 4096,
            Instruction::SkipEqImm { x, kk } | Instruction::SkipNeImm { x, kk }
            | Instruction::LoadImm { x, kk } | Instruction::AddImm { x, kk }
            | Instruction::Random { x, kk } => x < 16,
            Instruction::SkipEqReg { x, y } | Instruction::Move { x, y } | Instruction::Or { x, y }
            | Instruction::And { x, y } | Instruction::Xor { x, y } | Instruction::AddReg { x, y }
            | Instruction::SubReg { x, y } | Instruction::SubRev { x, y }
            | Instruction::SkipNeReg { x, y } => x < 16 && y < 16,
            Instruction::Draw { x, y, n } => x < 16 && y < 16 && n < 16,
            Instruction::ShiftRight { x } | Instruction::ShiftLeft { x } | Instruction::SkipKey { x }
            | Instruction::SkipNoKey { x } | Instruction::ReadDelay { x }
            | Instruction::WaitKey { x } | Instruction::SetDelay { x } | Instruction::SetSound { x }
            | Instruction::AddIndex { x } | Instruction::Glyph { x } | Instruction::Bcd { x }
            | Instruction::Store { x } | Instruction::Load { x } => x < 16,
        }
    }
}

/// Every decoded instruction is well formed.
pub proof fn lemma_decode_wf(op: u16)
    ensures
        spec_decode(op) matches Ok(ins) ==> ins.wf(),
{
}

/// Splits an instruction word into its operand fields and selects the
/// instruction by the family nibble and, within the families `8`, `E` and
/// `F`, by the low nibble or byte.
pub fn decode(op: u16) -> (r: Result<Instruction, Fault>)
    ensures
        r == spec_decode(op),
{
    let x: usize = ((op >> 8) & 0xF) as usize;
    let y: usize = ((op >> 4) & 0xF) as usize;
    let kk: u8 = (op & 0xFF) as u8;
    let n: u8 = (op & 0xF) as u8;
    let nnn: u16 = op & 0xFFF;
    let top: u16 = op >> 12;
    proof {
        assert((op >> 8) & 0xF == (op / 256) % 16) by (bit_vector);
        assert((op >> 4) & 0xF == (op / 16) % 16) by (bit_vector);
        assert(op & 0xFF == op % 256) by (bit_vector);
        assert(op & 0xF == op % 16) by (bit_vector);
        assert(op & 0xFFF == op % 4096) by (bit_vector);
        assert(op >> 12 == op / 4096) by (bit_vector);
    }
    match top {
        0x0 => {
            if op == 0x00E0 {
                Ok(Instruction::Cls)
            } else if op == 0x00EE {
                Ok(Instruction::Ret)
            } else {
                Ok(Instruction::Sys)
            }
        },
        0x1 => Ok(Instruction::Jump { nnn }),
        0x2 => Ok(Instruction::Call { nnn }),
        0x3 => Ok(Instruction::SkipEqImm { x, kk }),
        0x4 => Ok(Instruction::SkipNeImm { x, kk }),
        0x5 => Ok(Instruction::SkipEqReg { x, y }),
        0x6 => Ok(Instruction::LoadImm { x, kk }),
        0x7 => Ok(Instruction::AddImm { x, kk }),
        0x8 => match n {
            0x0 => Ok(Instruction::Move { x, y }),
            0x1 => Ok(Instruction::Or { x, y }),
            0x2 => Ok(Instruction::And { x, y }),
            0x3 => Ok(Instruction::Xor { x, y }),
            0x4 => Ok(Instruction::AddReg { x, y }),
            0x5 => Ok(Instruction::SubReg { x, y }),
            0x6 => Ok(Instruction::ShiftRight { x }),
            0x7 => Ok(Instruction::SubRev { x, y }),
            0xE => Ok(Instruction::ShiftLeft { x }),
            _ => Err(Fault::UndefinedOpcode(op)),
        },
        0x9 => Ok(Instruction::SkipNeReg { x, y }),
        0xA => Ok(Instruction::LoadIndex { nnn }),
        0xB => Ok(Instruction::JumpOffset { nnn }),
        0xC => Ok(Instruction::Random { x, kk }),
        0xD => Ok(Instruction::Draw { x, y, n }),
        0xE => match kk {
            0x9E => Ok(Instruction::SkipKey { x }),
            0xA1 => Ok(Instruction::SkipNoKey { x }),
            _ => Err(Fault::UndefinedOpcode(op)),
        },
        _ => match kk {
            0x07 => Ok(Instruction::ReadDelay { x }),
            0x0A => Ok(Instruction::WaitKey { x }),
            0x15 => Ok(Instruction::SetDelay { x }),
            0x18 => Ok(Instruction::SetSound { x }),
            0x1E => Ok(Instruction::AddIndex { x }),
            0x29 => Ok(Instruction::Glyph { x }),
            0x33 => Ok(Instruction::Bcd { x }),
            0x55 => Ok(Instruction::Store { x }),
            0x65 => Ok(Instruction::Load { x }),
            _ => Err(Fault::UndefinedOpcode(op)),
        },
    }
}

} // verus!
