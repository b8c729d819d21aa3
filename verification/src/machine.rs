//! The machine as a mathematical value, and what one step does to it.

use vstd::prelude::*;
use crate::consts::font_byte;
use crate::fault::Fault;
use crate::instruction::{spec_decode, word, Instruction, InstructionOrd};
use crate::sprite::{blank, draw};

verus! {

/// The whole state of the machine.
#[verifier::ext_equal]
pub struct Machine {
    /// The registers V0..VF.
    pub v: Seq<u8>,
    /// The address register I.
    pub i: u16,
    /// The program counter.
    pub pc: u16,
    /// The return addresses, the most recent last.
    pub stack: Seq<u16>,
    /// The memory.
    pub mem: Seq<u8>,
    /// The delay timer.
    pub dt: u8,
    /// The sound timer.
    pub st: u8,
    /// The keys as of the latest step.
    pub keys: Seq<bool>,
    /// The register that receives the next key press, while the machine waits for one.
    pub wait: Option<usize>,
    /// The display: `screen[x][y]` is the pixel in column `x` and row `y`.
    pub screen: Seq<Seq<bool>>,
    /// Whether the latest step drew on the display or cleared it.
    pub dirty: bool,
    /// The number of steps made so far, modulo 12.
    pub phase: int,
}

/// A timer one step of decay later.
pub open spec fn decayed(t: u8) -> u8 {
    if t > 0 {
        (t - 1) as u8
    } else {
        0u8
    }
}

/// Whether `k` is the lowest key that is pressed.
pub open spec fn is_first_pressed(keys: Seq<bool>, k: int) -> bool {
    &&& 0 <= k < keys.len()
    &&& keys[k]
    &&& forall|j: int| 0 <= j < k ==> !keys[j]
}

/// Whether no key is pressed.
pub open spec fn none_pressed(keys: Seq<bool>) -> bool {
    forall|j: int| 0 <= j < keys.len() ==> !keys[j]
}

/// The memory of a machine that has just been given `program`: the font
/// from address 0, the program from address 0x200, zero elsewhere.
pub open spec fn initial_memory(program: Seq<u8>) -> Seq<u8> {
    Seq::new(
        4096,
        |a: int|
            if a < 80 {
                font_byte(a)
            } else if 0x200 <= a < 0x200 + program.len() {
                program[a - 0x200]
            } else {
                0u8
            },
    )
}

/// The machine that has just been given `program`.
pub open spec fn initial(program: Seq<u8>) -> Machine {
    Machine {
        v: Seq::new(16, |j: int| 0u8),
        i: 0,
        pc: 0x200,
        stack: Seq::empty(),
        mem: initial_memory(program),
        dt: 0,
        st: 0,
        keys: Seq::new(16, |j: int| false),
        wait: None,
        screen: blank(64, 32),
        dirty: false,
        phase: 0,
    }
}

/// What construction from `program` gives.
pub open spec fn construct(program: Seq<u8>) -> Result<Machine, Fault> {
    if program.len() == 0 {
        Err(Fault::EmptyProgram)
    } else if program.len() > 3584 {
        Err(Fault::ProgramTooLarge)
    } else {
        Ok(initial(program))
    }
}

impl Machine {
    /// The sizes are those of the machine, the stack holds at most sixteen
    /// addresses, and a register waited for exists.
    pub open spec fn wf(self) -> bool {
        &&& self.v.len() == 16
        &&& self.stack.len() <= 16
        &&& self.mem.len() == 4096
        &&& self.keys.len() == 16
        &&& (self.wait matches Some(t) ==> t < 16)
        &&& self.screen.len() == 64
        &&& (forall|x: int| 0 <= x < 64 ==> (#[trigger] self.screen[x]).len() == 32)
        &&& 0 <= self.phase < 12
    }

    /// The machine with register `x` set to `val`.
    pub open spec fn with_reg(self, x: int, val: u8) -> Machine {
        Machine { v: self.v.update(x, val), ..self }
    }

    /// The machine with the flag register set to 1 if `set`, else to 0.
    pub open spec fn with_flag(self, set: bool) -> Machine {
        self.with_reg(0xF, if set { 1u8 } else { 0u8 })
    }

    /// `8xy4`: the sum goes to `Vx`, then the carry to the flag.
    pub open spec fn add_reg(self, x: int, y: int) -> Machine {
        let sum = self.v[x] as int + self.v[y] as int;
        self.with_reg(x, (sum % 256) as u8).with_flag(sum > 255)
    }

    /// `8xy5`: the flag says whether `Vx > Vy`, then `Vx - Vy` goes to `Vx`.
    /// The difference is taken from the registers as they are once the flag is set.
    pub open spec fn sub_reg(self, x: int, y: int) -> Machine {
        let f = self.with_flag(self.v[x] > self.v[y]);
        f.with_reg(x, ((f.v[x] as int - f.v[y] as int) % 256) as u8)
    }

    /// `8xy7`: the flag says whether `Vy > Vx`, then `Vy - Vx` goes to `Vx`.
    /// The difference is taken from the registers as they are once the flag is set.
    pub open spec fn sub_rev(self, x: int, y: int) -> Machine {
        let f = self.with_flag(self.v[y] > self.v[x]);
        f.with_reg(x, ((f.v[y] as int - f.v[x] as int) % 256) as u8)
    }

    /// `8xy6`: the lowest bit of `Vx` goes to the flag, then `Vx` is halved.
    pub open spec fn shift_right(self, x: int) -> Machine {
        let f = self.with_flag(self.v[x] as int % 2 == 1);
        f.with_reg(x, (f.v[x] as int / 2) as u8)
    }

    /// `8xyE`: the highest bit of `Vx` goes to the flag, then `Vx` is doubled.
    pub open spec fn shift_left(self, x: int) -> Machine {
        let f = self.with_flag(self.v[x] >= 128);
        f.with_reg(x, ((f.v[x] as int * 2) % 256) as u8)
    }

    /// The `n` bytes of memory from `I` on.
    pub open spec fn sprite(self, n: int) -> Seq<u8> {
        Seq::new(n as nat, |r: int| self.mem[self.i as int + r])
    }

    /// `Dxyn`: the sprite of `n` rows at `I` is drawn at `(Vx, Vy)`.
    pub open spec fn draw_sprite(self, x: int, y: int, n: int) -> Machine {
        let c = draw(self.v, self.screen, x, y, self.sprite(n));
        Machine { v: c.v, screen: c.screen, dirty: true, ..self }
    }

    /// `Fx33`: the hundreds, tens and ones of `Vx` go to `I`, `I+1`, `I+2`.
    pub open spec fn store_bcd(self, x: int) -> Machine {
        let val = self.v[x] as int;
        let base = self.i as int;
        Machine {
            mem: self.mem.update(base, (val / 100) as u8).update(
                base + 1,
                ((val / 10) % 10) as u8,
            ).update(base + 2, (val % 10) as u8),
            ..self
        }
    }

    /// `Fx55`: `V0..=Vx` go to `I..=I+x`.
    pub open spec fn store_regs(self, x: int) -> Machine {
        let base = self.i as int;
        Machine {
            mem: Seq::new(
                4096,
                |a: int|
                    if base <= a <= base + x {
                        self.v[a - base]
                    } else {
                        self.mem[a]
                    },
            ),
            ..self
        }
    }

    /// `Fx65`: `V0..=Vx` are read from `I..=I+x`.
    pub open spec fn load_regs(self, x: int) -> Machine {
        let base = self.i as int;
        Machine {
            v: Seq::new(
                16,
                |j: int|
                    if j <= x {
                        self.mem[base + j]
                    } else {
                        self.v[j]
                    },
            ),
            ..self
        }
    }

    /// What an instruction does to everything but the program counter, and
    /// what it asks of the program counter. `byte` is the random byte that
    /// `Cxkk` uses. A fault comes with no change to the machine.
    pub open spec fn effect(self, ins: Instruction, byte: u8) -> Result<(Machine, InstructionOrd), Fault> {
        match ins {
            Instruction::Sys => Ok((self, InstructionOrd::Next)),
            Instruction::Cls => Ok(
                (Machine { screen: blank(64, 32), dirty: true, ..self }, InstructionOrd::Next),
            ),
            Instruction::Ret => if self.stack.len() == 0 {
                Err(Fault::StackUnderflow)
            } else {
                Ok(
                    (
                        Machine { stack: self.stack.drop_last(), ..self },
                        InstructionOrd::Jump(self.stack.last()),
                    ),
                )
            },
            Instruction::Jump { nnn } => Ok((self, InstructionOrd::Jump(nnn))),
            Instruction::Call { nnn } => if self.stack.len() >= 16 {
                Err(Fault::StackOverflow)
            } else {
                Ok(
                    (
                        Machine { stack: self.stack.push((self.pc + 2) as u16), ..self },
                        InstructionOrd::Jump(nnn),
                    ),
                )
            },
            Instruction::SkipEqImm { x, kk } => Ok((self, skip_if(self.v[x as int] == kk))),
            Instruction::SkipNeImm { x, kk } => Ok((self, skip_if(self.v[x as int] != kk))),
            Instruction::SkipEqReg { x, y } => Ok(
                (self, skip_if(self.v[x as int] == self.v[y as int])),
            ),
            Instruction::LoadImm { x, kk } => Ok((self.with_reg(x as int, kk), InstructionOrd::Next)),
            Instruction::AddImm { x, kk } => Ok(
                (
                    self.with_reg(x as int, ((self.v[x as int] as int + kk as int) % 256) as u8),
                    InstructionOrd::Next,
                ),
            ),
            Instruction::Move { x, y } => Ok(
                (self.with_reg(x as int, self.v[y as int]), InstructionOrd::Next),
            ),
            Instruction::Or { x, y } => Ok(
                (self.with_reg(x as int, self.v[x as int] | self.v[y as int]), InstructionOrd::Next),
            ),
            Instruction::And { x, y } => Ok(
                (self.with_reg(x as int, self.v[x as int] & self.v[y as int]), InstructionOrd::Next),
            ),
            Instruction::Xor { x, y } => Ok(
                (self.with_reg(x as int, self.v[x as int] ^ self.v[y as int]), InstructionOrd::Next),
            ),
            Instruction::AddReg { x, y } => Ok((self.add_reg(x as int, y as int), InstructionOrd::Next)),
            Instruction::SubReg { x, y } => Ok((self.sub_reg(x as int, y as int), InstructionOrd::Next)),
            Instruction::ShiftRight { x } => Ok((self.shift_right(x as int), InstructionOrd::Next)),
            Instruction::SubRev { x, y } => Ok((self.sub_rev(x as int, y as int), InstructionOrd::Next)),
            Instruction::ShiftLeft { x } => Ok((self.shift_left(x as int), InstructionOrd::Next)),
            Instruction::SkipNeReg { x, y } => Ok(
                (self, skip_if(self.v[x as int] != self.v[y as int])),
            ),
            Instruction::LoadIndex { nnn } => Ok((Machine { i: nnn, ..self }, InstructionOrd::Next)),
            Instruction::JumpOffset { nnn } => Ok(
                (self, InstructionOrd::Jump((nnn + self.v[0]) as u16)),
            ),
            Instruction::Random { x, kk } => Ok(
                (self.with_reg(x as int, byte & kk), InstructionOrd::Next),
            ),
            Instruction::Draw { x, y, n } => if self.i + n > 4096 && n > 0 {
                Err(Fault::MemoryOutOfRange)
            } else {
                Ok((self.draw_sprite(x as int, y as int, n as int), InstructionOrd::Next))
            },
            Instruction::SkipKey { x } => if self.v[x as int] >= 16 {
                Err(Fault::KeyOutOfRange)
            } else {
                Ok((self, skip_if(self.keys[self.v[x as int] as int])))
            },
            Instruction::SkipNoKey { x } => if self.v[x as int] >= 16 {
                Err(Fault::KeyOutOfRange)
            } else {
                Ok((self, skip_if(!self.keys[self.v[x as int] as int])))
            },
            Instruction::ReadDelay { x } => Ok((self.with_reg(x as int, self.dt), InstructionOrd::Next)),
            Instruction::WaitKey { x } => Ok((Machine { wait: Some(x), ..self }, InstructionOrd::Next)),
            Instruction::SetDelay { x } => Ok(
                (Machine { dt: self.v[x as int], ..self }, InstructionOrd::Next),
            ),
            Instruction::SetSound { x } => Ok(
                (Machine { st: self.v[x as int], ..self }, InstructionOrd::Next),
            ),
            Instruction::AddIndex { x } => if self.i + self.v[x as int] > 0xFFFF {
                Err(Fault::IndexOverflow)
            } else {
                Ok(
                    (
                        Machine { i: (self.i + self.v[x as int]) as u16, ..self },
                        InstructionOrd::Next,
                    ),
                )
            },
            Instruction::Glyph { x } => Ok(
                (Machine { i: (self.v[x as int] * 5) as u16, ..self }, InstructionOrd::Next),
            ),
            Instruction::Bcd { x } => if self.i + 2 >= 4096 {
                Err(Fault::MemoryOutOfRange)
            } else {
                Ok((self.store_bcd(x as int), InstructionOrd::Next))
            },
            Instruction::Store { x } => if self.i + x >= 4096 {
                Err(Fault::MemoryOutOfRange)
            } else {
                Ok((self.store_regs(x as int), InstructionOrd::Next))
            },
            Instruction::Load { x } => if self.i + x >= 4096 {
                Err(Fault::MemoryOutOfRange)
            } else {
                Ok((self.load_regs(x as int), InstructionOrd::Next))
            },
        }
    }

    /// The machine with the program counter moved as `ord` asks.
    pub open spec fn advance(self, ord: InstructionOrd) -> Machine {
        Machine {
            pc: match ord {
                InstructionOrd::Next => (self.pc + 2) as u16,
                InstructionOrd::Skip => (self.pc + 4) as u16,
                InstructionOrd::Jump(addr) => addr,
            },
            ..self
        }
    }

    /// Executes one decoded instruction: its effect, then the move of the
    /// program counter. An instruction is executed only at an address from
    /// which one can be fetched.
    pub open spec fn execute(self, ins: Instruction, byte: u8) -> Result<Machine, Fault> {
        if self.pc > 0xFFE {
            Err(Fault::PcOutOfRange)
        } else {
            match self.effect(ins, byte) {
                Ok((m, ord)) => Ok(m.advance(ord)),
                Err(f) => Err(f),
            }
        }
    }

    /// The instruction word at the program counter, high byte first.
    pub open spec fn fetch(self) -> Result<u16, Fault> {
        if self.pc > 0xFFE {
            Err(Fault::PcOutOfRange)
        } else {
            Ok(word(self.mem[self.pc as int], self.mem[self.pc + 1]))
        }
    }

    /// The instruction at the program counter.
    pub open spec fn current(self) -> Result<Instruction, Fault> {
        match self.fetch() {
            Ok(op) => spec_decode(op),
            Err(f) => Err(f),
        }
    }

    /// Decodes and executes the instruction word `op`.
    pub open spec fn run(self, op: u16, byte: u8) -> Result<Machine, Fault> {
        match spec_decode(op) {
            Ok(ins) => self.execute(ins, byte),
            Err(f) => Err(f),
        }
    }

    /// The start of every step: the keys are replaced, the dirty flag is
    /// cleared and the step is counted.
    pub open spec fn latch(self, keys: Seq<bool>) -> Machine {
        Machine { keys, dirty: false, phase: (self.phase + 1) % 12, ..self }
    }

    /// A step of a waiting machine, after the latch: the lowest pressed key
    /// goes to the register waited for and the wait ends; with no key
    /// pressed nothing happens.
    pub open spec fn resolve_wait(self) -> Machine {
        if none_pressed(self.keys) {
            self
        } else {
            let k = choose|k: int| is_first_pressed(self.keys, k);
            Machine { wait: None, ..self.with_reg(self.wait.unwrap() as int, k as u8) }
        }
    }

    /// The timers after the latch: on every twelfth step each is
    /// decremented unless it is zero.
    pub open spec fn decay(self) -> Machine {
        if self.phase == 0 {
            Machine { dt: decayed(self.dt), st: decayed(self.st), ..self }
        } else {
            self
        }
    }

    /// Whether the step that comes next executes `Cxkk`, the one
    /// instruction that uses a random byte.
    pub open spec fn wants_random(self) -> bool {
        self.wait is None && self.pc <= 0xFFE && self.mem[self.pc as int] / 16 == 0xC
    }

    /// One step with the given keys. A waiting machine only looks for a
    /// key. A running machine lets its timers decay, then fetches, decodes
    /// and executes one instruction, `byte` being the random byte for
    /// `Cxkk`.
    pub open spec fn tick(self, keys: Seq<bool>, byte: u8) -> Result<Machine, Fault> {
        let latched = self.latch(keys);
        if self.wait is Some {
            Ok(latched.resolve_wait())
        } else {
            let m = latched.decay();
            match m.fetch() {
                Ok(op) => m.run(op, byte),
                Err(f) => Err(f),
            }
        }
    }

    /// The machine after the first `count` of the steps that `keys` and
    /// `bytes` give the inputs of, or the first fault met on the way.
    pub open spec fn ticks(self, keys: Seq<Seq<bool>>, bytes: Seq<u8>, count: int) -> Result<
        Machine,
        Fault,
    >
        decreases count,
    {
        if count <= 0 {
            Ok(self)
        } else {
            then_tick(self.ticks(keys, bytes, count - 1), keys[count - 1], bytes[count - 1])
        }
    }
}

/// One more step of a run: the step, if the run has come this far, and
/// else the fault that ended it.
#[verifier::opaque]
pub open spec fn then_tick(sofar: Result<Machine, Fault>, keys: Seq<bool>, byte: u8) -> Result<
    Machine,
    Fault,
> {
    match sofar {
        Ok(m) => m.tick(keys, byte),
        Err(f) => Err(f),
    }
}

/// Whether a fallible operation went as `expected` says: on success the
/// machine is the expected one, on a fault it is as it was before and the
/// fault is the expected one.
pub open spec fn follows(
    before: Machine,
    after: Machine,
    res: Result<(), Fault>,
    expected: Result<Machine, Fault>,
) -> bool {
    match expected {
        Ok(m) => res is Ok && after == m,
        Err(f) => res == Err::<(), Fault>(f) && after == before,
    }
}

/// As [`follows`], for an instruction handler, which also says what
/// becomes of the program counter.
pub open spec fn handled(
    before: Machine,
    after: Machine,
    res: Result<InstructionOrd, Fault>,
    expected: Result<(Machine, InstructionOrd), Fault>,
) -> bool {
    match expected {
        Ok((m, ord)) => res == Ok::<InstructionOrd, Fault>(ord) && after == m,
        Err(f) => res == Err::<InstructionOrd, Fault>(f) && after == before,
    }
}

/// `Skip` if `cond` holds, else `Next`.
pub open spec fn skip_if(cond: bool) -> InstructionOrd {
    if cond {
        InstructionOrd::Skip
    } else {
        InstructionOrd::Next
    }
}

} // verus!
