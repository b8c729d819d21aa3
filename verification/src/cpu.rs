//! The executable machine.

use vstd::prelude::*;
use vstd::string::StringExecFns;
use crate::consts::{
    font_byte, FLAG, FONTS, GLYPH_COUNT, GLYPH_SIZE, KEY_COUNT, LAST_FETCH_ADDR, MAX_PROGRAM_SIZE,
    RAM_SIZE, REGISTER_COUNT, SCR_HEIGHT, SCR_WIDTH, STACK_SIZE, START_ADDR, TIMER_PERIOD,
};
use crate::fault::Fault;
use crate::instruction::{decode, lemma_decode_wf, Instruction, InstructionOrd};
use crate::machine::{
    construct, follows, handled, initial, is_first_pressed, none_pressed, Machine,
};
use crate::rng::random_byte;
use crate::text::{
    append_decimal, append_hexadecimal, append_registers, machine_text, registers_text,
};
use crate::sprite::{
    canvas_wf, draw_row, draw_rows, lemma_draw_row_wf, lemma_draw_rows_wf, plot, sprite_bit,
    target_row, Canvas,
};

verus! {

/// A CHIP-8 machine. Its state is the [`Machine`] that its view gives.
pub struct Cpu {
    /// The registers V0..VF.
    v: [u8; REGISTER_COUNT],
    /// The address register I.
    i: u16,
    /// The program counter.
    pc: u16,
    /// The number of return addresses in `stack`.
    sp: u8,
    /// The return addresses, in the first `sp` places.
    stack: [u16; STACK_SIZE],
    /// The memory.
    mem: [u8; RAM_SIZE],
    /// The delay timer.
    dt: u8,
    /// The sound timer.
    st: u8,
    /// The keys as of the latest step.
    keys: [bool; KEY_COUNT],
    /// The register that receives the next key press, while the machine waits.
    wait: Option<usize>,
    /// The display, one array of cells per column, a cell being 0 or 1.
    vmem: [[u8; SCR_HEIGHT]; SCR_WIDTH],
    /// Whether the latest step drew on the display or cleared it.
    vmem_changed: bool,
    /// The number of steps made so far, modulo 12.
    cycle: u8,
}

impl View for Cpu {
    type V = Machine;

    closed spec fn view(&self) -> Machine {
        Machine {
            v: self.v@,
            i: self.i,
            pc: self.pc,
            stack: self.stack@.take(self.sp as int),
            mem: self.mem@,
            dt: self.dt,
            st: self.st,
            keys: self.keys@,
            wait: self.wait,
            screen: Seq::new(64, |x: int| Seq::new(32, |y: int| self.vmem[x][y] == 1u8)),
            dirty: self.vmem_changed,
            phase: self.cycle as int,
        }
    }
}

/// The lowest pressed key, if any key is pressed.
fn first_pressed(keys: &[bool; KEY_COUNT]) -> (r: Option<usize>)
    ensures
        match r {
            Some(k) => is_first_pressed(keys@, k as int),
            None => none_pressed(keys@),
        },
{
    let mut k: usize = 0;
    while k < KEY_COUNT
        invariant
            k <= 16,
            forall|j: int| 0 <= j < k ==> !keys@[j],
        decreases 16 - k,
    {
        if keys[k] {
            return Some(k);
        }
        k += 1;
    }
    None
}

impl Cpu {
    /// The stack pointer counts the return addresses in use, the step
    /// counter runs modulo 12, a register waited for exists, and a display
    /// cell holds 0 or 1.
    #[verifier::type_invariant]
    spec fn inv(self) -> bool {
        &&& self.sp <= 16
        &&& self.cycle < 12
        &&& (self.wait matches Some(t) ==> t < 16)
        &&& forall|x: int, y: int| 0 <= x < 64 && 0 <= y < 32 ==> #[trigger] self.vmem[x][y] <= 1
    }

    /// Writes the font into the first 80 bytes of `mem`.
    fn load_fonts(mem: &mut [u8; RAM_SIZE])
        ensures
            forall|a: int| 0 <= a < 80 ==> final(mem)[a] == font_byte(a),
            forall|a: int| 80 <= a < 4096 ==> final(mem)[a] == old(mem)[a],
    {
        let mut g: usize = 0;
        while g < GLYPH_COUNT
            invariant
                g <= 16,
                forall|a: int| 0 <= a < g * 5 ==> mem[a] == font_byte(a),
                forall|a: int| 80 <= a < 4096 ==> mem[a] == old(mem)[a],
            decreases 16 - g,
        {
            let mut r: usize = 0;
            while r < GLYPH_SIZE
                invariant
                    g < 16,
                    r <= 5,
                    forall|a: int| 0 <= a < g * 5 + r ==> mem[a] == font_byte(a),
                    forall|a: int| 80 <= a < 4096 ==> mem[a] == old(mem)[a],
                decreases 5 - r,
            {
                mem[g * GLYPH_SIZE + r] = FONTS[g][r];
                r += 1;
            }
            g += 1;
        }
    }

    /// A machine with the font at address 0, `file` at address 0x200,
    /// everything else zero and the program counter at 0x200. An empty
    /// program and one of more than 3584 bytes are refused.
    pub fn new(file: Vec<u8>) -> (r: Result<Cpu, Fault>)
        ensures
            match construct(file@) {
                Ok(m) => r matches Ok(c) && c@ == m && c@.wf(),
                Err(f) => r matches Err(e) && e == f,
            },
    {
        if file.len() == 0 {
            return Err(Fault::EmptyProgram);
        }
        if file.len() > MAX_PROGRAM_SIZE {
            return Err(Fault::ProgramTooLarge);
        }
        let mut memory: [u8; RAM_SIZE] = [0; RAM_SIZE];
        let mut k: usize = 0;
        while k < file.len()
            invariant
                k <= file.len() <= 3584,
                forall|a: int| 0 <= a < 0x200 ==> memory[a] == 0,
                forall|a: int| 0x200 <= a < 0x200 + k ==> memory[a] == file@[a - 0x200],
                forall|a: int| 0x200 + k <= a < 4096 ==> memory[a] == 0,
            decreases file.len() - k,
        {
            memory[0x200 + k] = file[k];
            k += 1;
        }
        Cpu::load_fonts(&mut memory);
        let cpu = Cpu {
            v: [0; REGISTER_COUNT],
            i: 0,
            pc: START_ADDR,
            sp: 0,
            stack: [0; STACK_SIZE],
            mem: memory,
            dt: 0,
            st: 0,
            keys: [false; KEY_COUNT],
            wait: None,
            vmem: [[0; SCR_HEIGHT]; SCR_WIDTH],
            vmem_changed: false,
            cycle: 0,
        };
        proof {
            assert(cpu@ =~~= initial(file@));
        }
        Ok(cpu)
    }

    /// The registers V0..VF.
    pub fn registers(&self) -> (r: &[u8; REGISTER_COUNT])
        ensures
            r@ == self@.v,
    {
        &self.v
    }

    /// The address register I.
    pub fn index(&self) -> (r: u16)
        ensures
            r == self@.i,
    {
        self.i
    }

    /// The program counter.
    pub fn pc(&self) -> (r: u16)
        ensures
            r == self@.pc,
    {
        self.pc
    }

    /// The number of return addresses on the stack.
    pub fn stack_depth(&self) -> (r: usize)
        ensures
            r == self@.stack.len(),
    {
        proof {
            use_type_invariant(self);
        }
        self.sp as usize
    }

    /// The memory.
    pub fn memory(&self) -> (r: &[u8; RAM_SIZE])
        ensures
            r@ == self@.mem,
    {
        &self.mem
    }

    /// The delay timer.
    pub fn delay_timer(&self) -> (r: u8)
        ensures
            r == self@.dt,
    {
        self.dt
    }

    /// The sound timer.
    pub fn sound_timer(&self) -> (r: u8)
        ensures
            r == self@.st,
    {
        self.st
    }

    /// The register that the machine waits to fill with a key, if it waits.
    pub fn awaiting_key(&self) -> (r: Option<usize>)
        ensures
            r == self@.wait,
    {
        self.wait
    }

    /// The display, one array per column: cell `[x][y]` is 1 where the
    /// pixel in column `x` and row `y` is set and 0 where it is not.
    pub fn vmem(&self) -> (r: &[[u8; SCR_HEIGHT]; SCR_WIDTH])
        ensures
            forall|x: int, y: int|
                0 <= x < 64 && 0 <= y < 32 ==> #[trigger] r[x][y] == (if self@.screen[x][y] {
                    1u8
                } else {
                    0u8
                }),
    {
        proof {
            use_type_invariant(self);
        }
        &self.vmem
    }

    /// Whether the latest step drew on the display or cleared it.
    pub fn vmem_changed(&self) -> (r: bool)
        ensures
            r == self@.dirty,
    {
        self.vmem_changed
    }

    /// The registers as text: `[V[0x0]:(..), V[0x1]:(..), ..]`, each
    /// value in decimal.
    pub fn format_registers(&self) -> (text: String)
        ensures
            text@ == registers_text(self@.v),
    {
        let mut text = String::new();
        append_registers(&mut text, &self.v);
        text
    }

    /// The machine as text: the registers, the address register and the
    /// program counter in hexadecimal, and the timers in decimal, one to
    /// a line.
    pub fn to_text(&self) -> (text: String)
        ensures
            text@ == machine_text(self@),
    {
        let mut text = String::from_str("\tRegisters: ");
        append_registers(&mut text, &self.v);
        text.append("\n\tI: 0x");
        append_hexadecimal(&mut text, self.i);
        text.append("\n\tProgram Counter: 0x");
        append_hexadecimal(&mut text, self.pc);
        text.append("\n\tDelay Timer: ");
        append_decimal(&mut text, self.dt as u16);
        text.append("\n\tSound Timer: ");
        append_decimal(&mut text, self.st as u16);
        text.append("\n");
        text
    }

    /// Pushes the address of the instruction after the current one.
    fn push(&mut self) -> (r: Result<(), Fault>)
        requires
            old(self)@.pc <= 0xFFE,
        ensures
            follows(
                old(self)@,
                final(self)@,
                r,
                if old(self)@.stack.len() >= 16 {
                    Err(Fault::StackOverflow)
                } else {
                    Ok(
                        (Machine {
                            stack: old(self)@.stack.push((old(self)@.pc + 2) as u16),
                            ..old(self)@
                        }),
                    )
                },
            ),
    {
        proof {
            use_type_invariant(&*self);
        }
        if self.sp as usize >= STACK_SIZE {
            return Err(Fault::StackOverflow);
        }
        self.stack[self.sp as usize] = self.pc + 2;
        self.sp += 1;
        proof {
            assert(self@.stack =~= old(self)@.stack.push((old(self)@.pc + 2) as u16));
        }
        Ok(())
    }

    /// Pops the most recent return address.
    fn pop(&mut self) -> (r: Result<u16, Fault>)
        ensures
            match r {
                Ok(addr) => old(self)@.stack.len() > 0 && addr == old(self)@.stack.last()
                    && final(self)@ == (Machine {
                    stack: old(self)@.stack.drop_last(),
                    ..old(self)@
                }),
                Err(f) => old(self)@.stack.len() == 0 && f == Fault::StackUnderflow && final(self)@
                    == old(self)@,
            },
    {
        proof {
            use_type_invariant(&*self);
        }
        if self.sp == 0 {
            return Err(Fault::StackUnderflow);
        }
        self.sp -= 1;
        let addr: u16 = self.stack[self.sp as usize];
        Ok(addr)
    }

    /// `00E0`: clears the display.
    fn i_00e0(&mut self) -> (ord: InstructionOrd)
        ensures
            handled(old(self)@, final(self)@, Ok(ord), old(self)@.effect(Instruction::Cls, 0)),
    {
        proof {
            use_type_invariant(&*self);
        }
        self.vmem = [[0; SCR_HEIGHT]; SCR_WIDTH];
        self.vmem_changed = true;
        proof {
            assert(self@.screen =~~= crate::sprite::blank(64, 32));
        }
        InstructionOrd::Next
    }

    /// `00EE`: returns from a subroutine.
    fn i_00ee(&mut self) -> (r: Result<InstructionOrd, Fault>)
        ensures
            handled(old(self)@, final(self)@, r, old(self)@.effect(Instruction::Ret, 0)),
    {
        match self.pop() {
            Ok(addr) => Ok(InstructionOrd::Jump(addr)),
            Err(f) => Err(f),
        }
    }

    /// `0nnn`: does nothing.
    fn i_0nnn(&mut self) -> (ord: InstructionOrd)
        ensures
            handled(old(self)@, final(self)@, Ok(ord), old(self)@.effect(Instruction::Sys, 0)),
    {
        InstructionOrd::Next
    }

    /// `1nnn`: jumps to `nnn`.
    fn i_1nnn(&mut self, nnn: u16) -> (ord: InstructionOrd)
        ensures
            handled(
                old(self)@,
                final(self)@,
                Ok(ord),
                old(self)@.effect(Instruction::Jump { nnn }, 0),
            ),
    {
        InstructionOrd::Jump(nnn)
    }

    /// `2nnn`: calls the subroutine at `nnn`.
    fn i_2nnn(&mut self, nnn: u16) -> (r: Result<InstructionOrd, Fault>)
        requires
            old(self)@.pc <= 0xFFE,
        ensures
            handled(old(self)@, final(self)@, r, old(self)@.effect(Instruction::Call { nnn }, 0)),
    {
        match self.push() {
            Ok(()) => Ok(InstructionOrd::Jump(nnn)),
            Err(f) => Err(f),
        }
    }

    /// `3xkk`: skips the next instruction if `Vx == kk`.
    fn i_3xkk(&mut self, x: usize, kk: u8) -> (ord: InstructionOrd)
        requires
            x < 16,
        ensures
            handled(
                old(self)@,
                final(self)@,
                Ok(ord),
                old(self)@.effect(Instruction::SkipEqImm { x, kk }, 0),
            ),
    {
        if self.v[x] == kk {
            return InstructionOrd::Skip;
        }
        InstructionOrd::Next
    }

    /// `4xkk`: skips the next instruction if `Vx != kk`.
    fn i_4xkk(&mut self, x: usize, kk: u8) -> (ord: InstructionOrd)
        requires
            x < 16,
        ensures
            handled(
                old(self)@,
                final(self)@,
                Ok(ord),
                old(self)@.effect(Instruction::SkipNeImm { x, kk }, 0),
            ),
    {
        if self.v[x] != kk {
            return InstructionOrd::Skip;
        }
        InstructionOrd::Next
    }

    /// `5xy_`: skips the next instruction if `Vx == Vy`.
    fn i_5xy0(&mut self, x: usize, y: usize) -> (ord: InstructionOrd)
        requires
            x < 16,
            y < 16,
        ensures
            handled(
                old(self)@,
                final(self)@,
                Ok(ord),
                old(self)@.effect(Instruction::SkipEqReg { x, y }, 0),
            ),
    {
        if self.v[x] == self.v[y] {
            return InstructionOrd::Skip;
        }
        InstructionOrd::Next
    }

    /// `6xkk`: `Vx := kk`.
    fn i_6xkk(&mut self, x: usize, kk: u8) -> (ord: InstructionOrd)
        requires
            x < 16,
        ensures
            handled(
                old(self)@,
                final(self)@,
                Ok(ord),
                old(self)@.effect(Instruction::LoadImm { x, kk }, 0),
            ),
            final(self)@.v[x as int] == kk,
    {
        proof {
            use_type_invariant(&*self);
        }
        self.v[x] = kk;
        InstructionOrd::Next
    }

    /// `7xkk`: `Vx := Vx + kk` modulo 256; the flag is left alone.
    fn i_7xkk(&mut self, x: usize, kk: u8) -> (ord: InstructionOrd)
        requires
            x < 16,
        ensures
            handled(
                old(self)@,
                final(self)@,
                Ok(ord),
                old(self)@.effect(Instruction::AddImm { x, kk }, 0),
            ),
    {
        proof {
            use_type_invariant(&*self);
        }
        self.v[x] = self.v[x].wrapping_add(kk);
        InstructionOrd::Next
    }

    /// `8xy0`: `Vx := Vy`.
    fn i_8xy0(&mut self, x: usize, y: usize) -> (ord: InstructionOrd)
        requires
            x < 16,
            y < 16,
        ensures
            handled(
                old(self)@,
                final(self)@,
                Ok(ord),
                old(self)@.effect(Instruction::Move { x, y }, 0),
            ),
    {
        proof {
            use_type_invariant(&*self);
        }
        self.v[x] = self.v[y];
        InstructionOrd::Next
    }

    /// `8xy1`: `Vx := Vx | Vy`.
    fn i_8xy1(&mut self, x: usize, y: usize) -> (ord: InstructionOrd)
        requires
            x < 16,
            y < 16,
        ensures
            handled(
                old(self)@,
                final(self)@,
                Ok(ord),
                old(self)@.effect(Instruction::Or { x, y }, 0),
            ),
    {
        proof {
            use_type_invariant(&*self);
        }
        self.v[x] = self.v[x] | self.v[y];
        InstructionOrd::Next
    }

    /// `8xy2`: `Vx := Vx & Vy`.
    fn i_8xy2(&mut self, x: usize, y: usize) -> (ord: InstructionOrd)
        requires
            x < 16,
            y < 16,
        ensures
            handled(
                old(self)@,
                final(self)@,
                Ok(ord),
                old(self)@.effect(Instruction::And { x, y }, 0),
            ),
    {
        proof {
            use_type_invariant(&*self);
        }
        self.v[x] = self.v[x] & self.v[y];
        InstructionOrd::Next
    }

    /// `8xy3`: `Vx := Vx ^ Vy`.
    fn i_8xy3(&mut self, x: usize, y: usize) -> (ord: InstructionOrd)
        requires
            x < 16,
            y < 16,
        ensures
            handled(
                old(self)@,
                final(self)@,
                Ok(ord),
                old(self)@.effect(Instruction::Xor { x, y }, 0),
            ),
    {
        proof {
            use_type_invariant(&*self);
        }
        self.v[x] = self.v[x] ^ self.v[y];
        InstructionOrd::Next
    }

    /// `8xy4`: `Vx := Vx + Vy` modulo 256, then `VF := 1` if the sum
    /// exceeds 255 and `0` if not.
    fn i_8xy4(&mut self, x: usize, y: usize) -> (ord: InstructionOrd)
        requires
            x < 16,
            y < 16,
        ensures
            handled(
                old(self)@,
                final(self)@,
                Ok(ord),
                old(self)@.effect(Instruction::AddReg { x, y }, 0),
            ),
    {
        proof {
            use_type_invariant(&*self);
        }
        let sum: u16 = self.v[x] as u16 + self.v[y] as u16;
        self.v[x] = (sum % 256) as u8;
        self.v[FLAG] = if sum > 255 {
            1
        } else {
            0
        };
        InstructionOrd::Next
    }

    /// `8xy5`: `VF := 1` if `Vx > Vy` and `0` if not, then
    /// `Vx := Vx - Vy` modulo 256.
    fn i_8xy5(&mut self, x: usize, y: usize) -> (ord: InstructionOrd)
        requires
            x < 16,
            y < 16,
        ensures
            handled(
                old(self)@,
                final(self)@,
                Ok(ord),
                old(self)@.effect(Instruction::SubReg { x, y }, 0),
            ),
    {
        proof {
            use_type_invariant(&*self);
        }
        self.v[FLAG] = if self.v[x] > self.v[y] {
            1
        } else {
            0
        };
        self.v[x] = self.v[x].wrapping_sub(self.v[y]);
        InstructionOrd::Next
    }

    /// `8xy6`: `VF :=` the lowest bit of `Vx`, then `Vx := Vx >> 1`.
    fn i_8xy6(&mut self, x: usize) -> (ord: InstructionOrd)
        requires
            x < 16,
        ensures
            handled(
                old(self)@,
                final(self)@,
                Ok(ord),
                old(self)@.effect(Instruction::ShiftRight { x }, 0),
            ),
    {
        proof {
            use_type_invariant(&*self);
        }
        let ghost a: u8 = self.v[x as int];
        self.v[FLAG] = self.v[x] & 0x1;
        let ghost b: u8 = self.v[x as int];
        self.v[x] = self.v[x] >> 1;
        proof {
            assert(a & 0x1 == (if a % 2 == 1 { 1u8 } else { 0u8 })) by (bit_vector);
            assert(b >> 1 == b / 2) by (bit_vector);
        }
        InstructionOrd::Next
    }

    /// `8xy7`: `VF := 1` if `Vy > Vx` and `0` if not, then
    /// `Vx := Vy - Vx` modulo 256.
    fn i_8xy7(&mut self, x: usize, y: usize) -> (ord: InstructionOrd)
        requires
            x < 16,
            y < 16,
        ensures
            handled(
                old(self)@,
                final(self)@,
                Ok(ord),
                old(self)@.effect(Instruction::SubRev { x, y }, 0),
            ),
    {
        proof {
            use_type_invariant(&*self);
        }
        self.v[FLAG] = if self.v[y] > self.v[x] {
            1
        } else {
            0
        };
        self.v[x] = self.v[y].wrapping_sub(self.v[x]);
        InstructionOrd::Next
    }

    /// `8xyE`: `VF :=` the highest bit of `Vx`, then `Vx := Vx << 1`
    /// modulo 256.
    fn i_8xye(&mut self, x: usize) -> (ord: InstructionOrd)
        requires
            x < 16,
        ensures
            handled(
                old(self)@,
                final(self)@,
                Ok(ord),
                old(self)@.effect(Instruction::ShiftLeft { x }, 0),
            ),
    {
        proof {
            use_type_invariant(&*self);
        }
        let ghost a: u8 = self.v[x as int];
        self.v[FLAG] = self.v[x] >> 7;
        let ghost b: u8 = self.v[x as int];
        self.v[x] = self.v[x] << 1;
        proof {
            assert(a >> 7 == (if a >= 128 { 1u8 } else { 0u8 })) by (bit_vector);
            assert(b << 1 == (b * 2) % 256) by (bit_vector);
        }
        InstructionOrd::Next
    }

    /// `9xy_`: skips the next instruction if `Vx != Vy`.
    fn i_9xy0(&mut self, x: usize, y: usize) -> (ord: InstructionOrd)
        requires
            x < 16,
            y < 16,
        ensures
            handled(
                old(self)@,
                final(self)@,
                Ok(ord),
                old(self)@.effect(Instruction::SkipNeReg { x, y }, 0),
            ),
    {
        if self.v[x] != self.v[y] {
            return InstructionOrd::Skip;
        }
        InstructionOrd::Next
    }

    /// `Annn`: `I := nnn`.
    fn i_annn(&mut self, nnn: u16) -> (ord: InstructionOrd)
        ensures
            handled(
                old(self)@,
                final(self)@,
                Ok(ord),
                old(self)@.effect(Instruction::LoadIndex { nnn }, 0),
            ),
    {
        proof {
            use_type_invariant(&*self);
        }
        self.i = nnn;
        InstructionOrd::Next
    }

    /// `Bnnn`: jumps to `nnn + V0`.
    fn i_bnnn(&mut self, nnn: u16) -> (ord: InstructionOrd)
        requires
            nnn < 4096,
        ensures
            handled(
                old(self)@,
                final(self)@,
                Ok(ord),
                old(self)@.effect(Instruction::JumpOffset { nnn }, 0),
            ),
    {
        InstructionOrd::Jump(nnn + self.v[0] as u16)
    }

    /// `Cxkk`: `Vx := byte & kk`, where `byte` is the random byte drawn
    /// for this instruction.
    fn i_cxkk(&mut self, x: usize, kk: u8, byte: u8) -> (ord: InstructionOrd)
        requires
            x < 16,
        ensures
            handled(
                old(self)@,
                final(self)@,
                Ok(ord),
                old(self)@.effect(Instruction::Random { x, kk }, byte),
            ),
    {
        proof {
            use_type_invariant(&*self);
        }
        self.v[x] = byte & kk;
        InstructionOrd::Next
    }

    /// `Dxyn`: clears the flag and draws the sprite of `n` rows that
    /// starts at `I`, pixel by pixel, at `(Vx, Vy)`. Columns wrap at 64 and
    /// rows at 32. A set sprite pixel flips the display pixel; where the
    /// display pixel was set before, the flag becomes 1.
    fn i_dxyn(&mut self, x: usize, y: usize, n: u8) -> (r: Result<InstructionOrd, Fault>)
        requires
            x < 16,
            y < 16,
            n < 16,
        ensures
            handled(
                old(self)@,
                final(self)@,
                r,
                old(self)@.effect(Instruction::Draw { x, y, n }, 0),
            ),
    {
        proof {
            use_type_invariant(&*self);
        }
        if n > 0 && self.i as usize + n as usize > RAM_SIZE {
            return Err(Fault::MemoryOutOfRange);
        }
        self.v[FLAG] = 0;
        let ghost sprite = old(self)@.sprite(n as int);
        let ghost start = Canvas { v: self@.v, screen: self@.screen };
        let mut byte: u8 = 0;
        while byte < n
            invariant
                x < 16,
                y < 16,
                byte <= n < 16,
                n > 0 ==> self.i + n <= 4096,
                self.i == old(self).i,
                self.pc == old(self).pc,
                self.sp == old(self).sp,
                self.stack == old(self).stack,
                self.mem == old(self).mem,
                self.dt == old(self).dt,
                self.st == old(self).st,
                self.keys == old(self).keys,
                self.wait == old(self).wait,
                self.vmem_changed == old(self).vmem_changed,
                self.cycle == old(self).cycle,
                sprite == old(self)@.sprite(n as int),
                canvas_wf(start),
                (Canvas { v: self@.v, screen: self@.screen }) == draw_rows(
                    start,
                    x as int,
                    y as int,
                    sprite,
                    byte as int,
                ),
            decreases n - byte,
        {
            proof {
                use_type_invariant(&*self);
                lemma_draw_rows_wf(start, x as int, y as int, sprite, byte as int);
            }
            let ghost above = Canvas { v: self@.v, screen: self@.screen };
            let py: usize = (self.v[y] as usize + byte as usize) % SCR_HEIGHT;
            let row: u8 = self.mem[self.i as usize + byte as usize];
            let mut bit: u8 = 0;
            while bit < 8
                invariant
                    x < 16,
                    py < 32,
                    bit <= 8,
                    self.i == old(self).i,
                    self.pc == old(self).pc,
                    self.sp == old(self).sp,
                    self.stack == old(self).stack,
                    self.mem == old(self).mem,
                    self.dt == old(self).dt,
                    self.st == old(self).st,
                    self.keys == old(self).keys,
                    self.wait == old(self).wait,
                    self.vmem_changed == old(self).vmem_changed,
                    self.cycle == old(self).cycle,
                    canvas_wf(above),
                    (Canvas { v: self@.v, screen: self@.screen }) == draw_row(
                        above,
                        x as int,
                        py as int,
                        row,
                        bit as int,
                    ),
                decreases 8 - bit,
            {
                proof {
                    use_type_invariant(&*self);
                    lemma_draw_row_wf(above, x as int, py as int, row, bit as int);
                }
                let ghost before = Canvas { v: self@.v, screen: self@.screen };
                let px: usize = (self.v[x] as usize + bit as usize) % SCR_WIDTH;
                let color: u8 = (row >> (7 - bit)) & 1;
                let cell: u8 = self.vmem[px][py];
                let flag: u8 = self.v[FLAG];
                proof {
                    let s: u8 = (7 - bit) as u8;
                    assert((row >> s) & 1 <= 1) by (bit_vector);
                    assert(color <= 1 && cell <= 1 && flag <= 1 ==> (cell ^ color) <= 1 && ((cell
                        ^ color) == 1 <==> (cell == 1) != (color == 1)) && (flag | (color & cell))
                        == (if color == 1 && cell == 1 {
                        1u8
                    } else {
                        flag
                    })) by (bit_vector);
                }
                self.v[FLAG] = flag | (color & cell);
                self.vmem[px][py] = cell ^ color;
                bit += 1;
                proof {
                    let lit = sprite_bit(row, bit as int - 1);
                    let after = plot(before, x as int, py as int, bit as int - 1, lit);
                    assert(self@.screen =~~= after.screen);
                }
            }
            byte += 1;
        }
        proof {
            use_type_invariant(&*self);
        }
        self.vmem_changed = true;
        Ok(InstructionOrd::Next)
    }

    /// `Ex9E`: skips the next instruction if the key numbered `Vx` is
    /// pressed.
    fn i_ex9e(&mut self, x: usize) -> (r: Result<InstructionOrd, Fault>)
        requires
            x < 16,
        ensures
            handled(
                old(self)@,
                final(self)@,
                r,
                old(self)@.effect(Instruction::SkipKey { x }, 0),
            ),
    {
        let key: usize = self.v[x] as usize;
        if key >= KEY_COUNT {
            return Err(Fault::KeyOutOfRange);
        }
        if self.keys[key] {
            return Ok(InstructionOrd::Skip);
        }
        Ok(InstructionOrd::Next)
    }

    /// `ExA1`: skips the next instruction if the key numbered `Vx` is not
    /// pressed.
    fn i_exa1(&mut self, x: usize) -> (r: Result<InstructionOrd, Fault>)
        requires
            x < 16,
        ensures
            handled(
                old(self)@,
                final(self)@,
                r,
                old(self)@.effect(Instruction::SkipNoKey { x }, 0),
            ),
    {
        let key: usize = self.v[x] as usize;
        if key >= KEY_COUNT {
            return Err(Fault::KeyOutOfRange);
        }
        if !self.keys[key] {
            return Ok(InstructionOrd::Skip);
        }
        Ok(InstructionOrd::Next)
    }

    /// `Fx07`: `Vx :=` delay timer.
    fn i_fx07(&mut self, x: usize) -> (ord: InstructionOrd)
        requires
            x < 16,
        ensures
            handled(
                old(self)@,
                final(self)@,
                Ok(ord),
                old(self)@.effect(Instruction::ReadDelay { x }, 0),
            ),
    {
        proof {
            use_type_invariant(&*self);
        }
        self.v[x] = self.dt;
        InstructionOrd::Next
    }

    /// `Fx0A`: makes the machine wait for a key, whose number will go to
    /// `Vx`.
    fn i_fx0a(&mut self, x: usize) -> (ord: InstructionOrd)
        requires
            x < 16,
        ensures
            handled(
                old(self)@,
                final(self)@,
                Ok(ord),
                old(self)@.effect(Instruction::WaitKey { x }, 0),
            ),
    {
        proof {
            use_type_invariant(&*self);
        }
        self.wait = Some(x);
        InstructionOrd::Next
    }

    /// `Fx15`: delay timer `:= Vx`.
    fn i_fx15(&mut self, x: usize) -> (ord: InstructionOrd)
        requires
            x < 16,
        ensures
            handled(
                old(self)@,
                final(self)@,
                Ok(ord),
                old(self)@.effect(Instruction::SetDelay { x }, 0),
            ),
    {
        proof {
            use_type_invariant(&*self);
        }
        self.dt = self.v[x];
        InstructionOrd::Next
    }

    /// `Fx18`: sound timer `:= Vx`.
    fn i_fx18(&mut self, x: usize) -> (ord: InstructionOrd)
        requires
            x < 16,
        ensures
            handled(
                old(self)@,
                final(self)@,
                Ok(ord),
                old(self)@.effect(Instruction::SetSound { x }, 0),
            ),
    {
        proof {
            use_type_invariant(&*self);
        }
        self.st = self.v[x];
        InstructionOrd::Next
    }

    /// `Fx1E`: `I := I + Vx`, refused where the sum leaves sixteen bits.
    fn i_fx1e(&mut self, x: usize) -> (r: Result<InstructionOrd, Fault>)
        requires
            x < 16,
        ensures
            handled(
                old(self)@,
                final(self)@,
                r,
                old(self)@.effect(Instruction::AddIndex { x }, 0),
            ),
    {
        proof {
            use_type_invariant(&*self);
        }
        match self.i.checked_add(self.v[x] as u16) {
            Some(sum) => {
                self.i = sum;
                Ok(InstructionOrd::Next)
            },
            None => Err(Fault::IndexOverflow),
        }
    }

    /// `Fx29`: `I := Vx * 5`, where the glyph for the digit `Vx` starts.
    fn i_fx29(&mut self, x: usize) -> (ord: InstructionOrd)
        requires
            x < 16,
        ensures
            handled(
                old(self)@,
                final(self)@,
                Ok(ord),
                old(self)@.effect(Instruction::Glyph { x }, 0),
            ),
    {
        proof {
            use_type_invariant(&*self);
        }
        self.i = self.v[x] as u16 * 5;
        InstructionOrd::Next
    }

    /// `Fx33`: stores the hundreds, tens and ones of `Vx` at `I`, `I+1`
    /// and `I+2`.
    fn i_fx33(&mut self, x: usize) -> (r: Result<InstructionOrd, Fault>)
        requires
            x < 16,
        ensures
            handled(old(self)@, final(self)@, r, old(self)@.effect(Instruction::Bcd { x }, 0)),
    {
        proof {
            use_type_invariant(&*self);
        }
        let base: usize = self.i as usize;
        if base + 2 >= RAM_SIZE {
            return Err(Fault::MemoryOutOfRange);
        }
        self.mem[base] = self.v[x] / 100;
        self.mem[base + 1] = self.v[x] / 10 % 10;
        self.mem[base + 2] = self.v[x] % 10;
        Ok(InstructionOrd::Next)
    }

    /// `Fx55`: stores `V0..=Vx` at `I..=I+x`.
    fn i_fx55(&mut self, x: usize) -> (r: Result<InstructionOrd, Fault>)
        requires
            x < 16,
        ensures
            handled(old(self)@, final(self)@, r, old(self)@.effect(Instruction::Store { x }, 0)),
    {
        proof {
            use_type_invariant(&*self);
        }
        let base: usize = self.i as usize;
        if base + x >= RAM_SIZE {
            return Err(Fault::MemoryOutOfRange);
        }
        let mut j: usize = 0;
        while j <= x
            invariant
                x < 16,
                j <= x + 1,
                base == self.i,
                base + x < 4096,
                self.v == old(self).v,
                self.i == old(self).i,
                self.pc == old(self).pc,
                self.sp == old(self).sp,
                self.stack == old(self).stack,
                self.dt == old(self).dt,
                self.st == old(self).st,
                self.keys == old(self).keys,
                self.wait == old(self).wait,
                self.vmem == old(self).vmem,
                self.vmem_changed == old(self).vmem_changed,
                self.cycle == old(self).cycle,
                forall|a: int| base <= a < base + j ==> self.mem[a] == self.v[a - base],
                forall|a: int|
                    0 <= a < 4096 && !(base <= a < base + j) ==> self.mem[a] == old(self).mem[a],
            decreases x + 1 - j,
        {
            proof {
                use_type_invariant(&*self);
            }
            self.mem[base + j] = self.v[j];
            j += 1;
        }
        proof {
            assert(self@.mem =~= old(self)@.store_regs(x as int).mem);
        }
        Ok(InstructionOrd::Next)
    }

    /// `Fx65`: loads `V0..=Vx` from `I..=I+x`.
    fn i_fx65(&mut self, x: usize) -> (r: Result<InstructionOrd, Fault>)
        requires
            x < 16,
        ensures
            handled(old(self)@, final(self)@, r, old(self)@.effect(Instruction::Load { x }, 0)),
    {
        proof {
            use_type_invariant(&*self);
        }
        let base: usize = self.i as usize;
        if base + x >= RAM_SIZE {
            return Err(Fault::MemoryOutOfRange);
        }
        let mut j: usize = 0;
        while j <= x
            invariant
                x < 16,
                j <= x + 1,
                base == self.i,
                base + x < 4096,
                self.mem == old(self).mem,
                self.i == old(self).i,
                self.pc == old(self).pc,
                self.sp == old(self).sp,
                self.stack == old(self).stack,
                self.dt == old(self).dt,
                self.st == old(self).st,
                self.keys == old(self).keys,
                self.wait == old(self).wait,
                self.vmem == old(self).vmem,
                self.vmem_changed == old(self).vmem_changed,
                self.cycle == old(self).cycle,
                forall|k: int| 0 <= k < j ==> self.v[k] == self.mem[base + k],
                forall|k: int| j <= k < 16 ==> self.v[k] == old(self).v[k],
            decreases x + 1 - j,
        {
            proof {
                use_type_invariant(&*self);
            }
            self.v[j] = self.mem[base + j];
            j += 1;
        }
        proof {
            assert(self@.v =~= old(self)@.load_regs(x as int).v);
        }
        Ok(InstructionOrd::Next)
    }

    /// Executes one decoded instruction and moves the program counter as
    /// the instruction asks. `byte` is the random byte for `Cxkk`.
    fn execute(&mut self, ins: Instruction, byte: u8) -> (r: Result<(), Fault>)
        requires
            ins.wf(),
        ensures
            follows(old(self)@, final(self)@, r, old(self)@.execute(ins, byte)),
    {
        proof {
            use_type_invariant(&*self);
        }
        if self.pc > LAST_FETCH_ADDR {
            return Err(Fault::PcOutOfRange);
        }
        let res: Result<InstructionOrd, Fault> = match ins {
            Instruction::Sys => Ok(self.i_0nnn()),
            Instruction::Cls => Ok(self.i_00e0()),
            Instruction::Ret => self.i_00ee(),
            Instruction::Jump { nnn } => Ok(self.i_1nnn(nnn)),
            Instruction::Call { nnn } => self.i_2nnn(nnn),
            Instruction::SkipEqImm { x, kk } => Ok(self.i_3xkk(x, kk)),
            Instruction::SkipNeImm { x, kk } => Ok(self.i_4xkk(x, kk)),
            Instruction::SkipEqReg { x, y } => Ok(self.i_5xy0(x, y)),
            Instruction::LoadImm { x, kk } => Ok(self.i_6xkk(x, kk)),
            Instruction::AddImm { x, kk } => Ok(self.i_7xkk(x, kk)),
            Instruction::Move { x, y } => Ok(self.i_8xy0(x, y)),
            Instruction::Or { x, y } => Ok(self.i_8xy1(x, y)),
            Instruction::And { x, y } => Ok(self.i_8xy2(x, y)),
            Instruction::Xor { x, y } => Ok(self.i_8xy3(x, y)),
            Instruction::AddReg { x, y } => Ok(self.i_8xy4(x, y)),
            Instruction::SubReg { x, y } => Ok(self.i_8xy5(x, y)),
            Instruction::ShiftRight { x } => Ok(self.i_8xy6(x)),
            Instruction::SubRev { x, y } => Ok(self.i_8xy7(x, y)),
            Instruction::ShiftLeft { x } => Ok(self.i_8xye(x)),
            Instruction::SkipNeReg { x, y } => Ok(self.i_9xy0(x, y)),
            Instruction::LoadIndex { nnn } => Ok(self.i_annn(nnn)),
            Instruction::JumpOffset { nnn } => Ok(self.i_bnnn(nnn)),
            Instruction::Random { x, kk } => Ok(self.i_cxkk(x, kk, byte)),
            Instruction::Draw { x, y, n } => self.i_dxyn(x, y, n),
            Instruction::SkipKey { x } => self.i_ex9e(x),
            Instruction::SkipNoKey { x } => self.i_exa1(x),
            Instruction::ReadDelay { x } => Ok(self.i_fx07(x)),
            Instruction::WaitKey { x } => Ok(self.i_fx0a(x)),
            Instruction::SetDelay { x } => Ok(self.i_fx15(x)),
            Instruction::SetSound { x } => Ok(self.i_fx18(x)),
            Instruction::AddIndex { x } => self.i_fx1e(x),
            Instruction::Glyph { x } => Ok(self.i_fx29(x)),
            Instruction::Bcd { x } => self.i_fx33(x),
            Instruction::Store { x } => self.i_fx55(x),
            Instruction::Load { x } => self.i_fx65(x),
        };
        assert(handled(old(self)@, self@, res, old(self)@.effect(ins, byte)));
        proof {
            use_type_invariant(&*self);
        }
        match res {
            Ok(InstructionOrd::Next) => {
                self.pc += 2;
                Ok(())
            },
            Ok(InstructionOrd::Skip) => {
                self.pc += 4;
                Ok(())
            },
            Ok(InstructionOrd::Jump(addr)) => {
                self.pc = addr;
                Ok(())
            },
            Err(f) => Err(f),
        }
    }

    /// The instruction word at the program counter, high byte first.
    fn read_next_instruction(&self) -> (r: Result<u16, Fault>)
        ensures
            r == self@.fetch(),
    {
        if self.pc > LAST_FETCH_ADDR {
            return Err(Fault::PcOutOfRange);
        }
        let hi: u8 = self.mem[self.pc as usize];
        let lo: u8 = self.mem[self.pc as usize + 1];
        Ok(hi as u16 * 256 + lo as u16)
    }

    /// Decodes the instruction word `op`, executes the instruction and
    /// moves the program counter. `byte` is the random byte for `Cxkk`.
    fn instruction_parser(&mut self, op: u16, byte: u8) -> (r: Result<(), Fault>)
        ensures
            follows(old(self)@, final(self)@, r, old(self)@.run(op, byte)),
    {
        match decode(op) {
            Ok(ins) => {
                proof {
                    lemma_decode_wf(op);
                }
                self.execute(ins, byte)
            },
            Err(f) => Err(f),
        }
    }

    /// Whether the next step executes `Cxkk`.
    fn wants_random(&self) -> (r: bool)
        ensures
            r == self@.wants_random(),
    {
        self.wait.is_none() && self.pc <= LAST_FETCH_ADDR && self.mem[self.pc as usize] / 16 == 0xC
    }

    /// The start of a step: takes the keys, clears the dirty flag and
    /// counts the step.
    fn latch(&mut self, keys: [bool; KEY_COUNT])
        ensures
            final(self)@ == old(self)@.latch(keys@),
    {
        proof {
            use_type_invariant(&*self);
        }
        self.keys = keys;
        self.vmem_changed = false;
        self.cycle = if self.cycle == TIMER_PERIOD - 1 {
            0
        } else {
            self.cycle + 1
        };
    }

    /// Ends the wait if a key is pressed: the lowest pressed key goes to
    /// the register waited for.
    fn resolve_wait(&mut self, target: usize)
        requires
            old(self)@.wait == Some(target),
        ensures
            final(self)@ == old(self)@.resolve_wait(),
    {
        proof {
            use_type_invariant(&*self);
        }
        match first_pressed(&self.keys) {
            Some(k) => {
                self.v[target] = k as u8;
                self.wait = None;
                proof {
                    let c = choose|c: int| is_first_pressed(old(self)@.keys, c);
                    assert(c == k);
                }
            },
            None => {},
        }
    }

    /// Decrements each timer that is not zero, if this is a twelfth step.
    fn decay(&mut self)
        ensures
            final(self)@ == old(self)@.decay(),
    {
        proof {
            use_type_invariant(&*self);
        }
        if self.cycle == 0 {
            if self.dt > 0 {
                self.dt -= 1;
            }
            if self.st > 0 {
                self.st -= 1;
            }
        }
    }

    /// Takes back what [`Cpu::latch`] and [`Cpu::decay`] did.
    fn unlatch(&mut self, keys: [bool; KEY_COUNT], changed: bool, cycle: u8, dt: u8, st: u8)
        requires
            cycle < 12,
        ensures
            final(self)@ == (Machine {
                keys: keys@,
                dirty: changed,
                phase: cycle as int,
                dt,
                st,
                ..old(self)@
            }),
    {
        proof {
            use_type_invariant(&*self);
        }
        self.keys = keys;
        self.vmem_changed = changed;
        self.cycle = cycle;
        self.dt = dt;
        self.st = st;
    }

    /// One step with the given keys, `byte` being the random byte that
    /// `Cxkk` uses if it is the instruction executed.
    ///
    /// The keys replace those of the step before and the dirty flag is
    /// cleared. A machine that waits for a key stores the lowest pressed
    /// key in the register it waits for and stops waiting, or goes on
    /// waiting if none is pressed. A machine that does not wait decrements
    /// each timer that is not zero if this is a twelfth step, then executes
    /// the instruction at the program counter. On a fault the machine is
    /// left as it was before the step.
    pub fn tick_with(&mut self, keys: [bool; KEY_COUNT], byte: u8) -> (r: Result<(), Fault>)
        ensures
            follows(old(self)@, final(self)@, r, old(self)@.tick(keys@, byte)),
            final(self)@.wf(),
    {
        proof {
            use_type_invariant(&*self);
        }
        let saved_keys: [bool; KEY_COUNT] = self.keys;
        let saved_changed: bool = self.vmem_changed;
        let saved_cycle: u8 = self.cycle;
        let saved_dt: u8 = self.dt;
        let saved_st: u8 = self.st;
        self.latch(keys);
        let res: Result<(), Fault> = match self.wait {
            Some(target) => {
                self.resolve_wait(target);
                Ok(())
            },
            None => {
                self.decay();
                let ran: Result<(), Fault> = match self.read_next_instruction() {
                    Ok(op) => self.instruction_parser(op, byte),
                    Err(f) => Err(f),
                };
                if ran.is_err() {
                    self.unlatch(saved_keys, saved_changed, saved_cycle, saved_dt, saved_st);
                    proof {
                        assert(self@ =~= old(self)@);
                    }
                }
                ran
            },
        };
        proof {
            use_type_invariant(&*self);
        }
        res
    }

    /// One step with the given keys, as [`Cpu::tick_with`] makes it. If
    /// the instruction to execute is `Cxkk`, a random byte is drawn for
    /// it; no other step uses one.
    pub fn tick(&mut self, keys: [bool; KEY_COUNT]) -> (r: Result<(), Fault>)
        ensures
            exists|byte: u8|
                follows(old(self)@, final(self)@, r, #[trigger] old(self)@.tick(keys@, byte)),
            !old(self)@.wants_random() ==> follows(
                old(self)@,
                final(self)@,
                r,
                old(self)@.tick(keys@, 0),
            ),
            final(self)@.wf(),
    {
        let byte: u8 = if self.wants_random() {
            random_byte()
        } else {
            0
        };
        self.tick_with(keys, byte)
    }
}

} // verus!
