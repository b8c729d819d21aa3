//! Statements that hold of every machine, proved from the description of
//! a step in [`crate::machine`].

use vstd::prelude::*;
use crate::fault::Fault;
use crate::instruction::{field_kk, field_n, field_top, field_x, field_y, Instruction};
use crate::instruction::{lemma_decode_wf, spec_decode};
use crate::machine::{decayed, is_first_pressed, none_pressed, then_tick, Machine};
use crate::sprite::{
    collides, covers, hits, lemma_draw_closed_form, lemma_draw_rows_wf, sprite_bit, Canvas,
};

verus! {

/// A step of a machine that does not wait and whose program counter
/// holds the instruction `ins` is the latch, the decay of the timers and
/// the execution of `ins`.
pub proof fn lemma_running_step(m: Machine, keys: Seq<bool>, byte: u8, ins: Instruction)
    requires
        m.wait is None,
        m.current() == Ok::<Instruction, Fault>(ins),
    ensures
        m.tick(keys, byte) == m.latch(keys).decay().execute(ins, byte),
        m.latch(keys).decay().pc == m.pc,
        m.pc <= 0xFFE,
{
}

/// `6xkk` followed by a read of `Vx` yields `kk`: where a machine that
/// does not wait has `6xkk` at its program counter, the step succeeds and
/// leaves `kk` in `Vx`.
pub proof fn law_load_immediate(m: Machine, keys: Seq<bool>, byte: u8, op: u16)
    requires
        m.wf(),
        m.wait is None,
        m.fetch() == Ok::<u16, Fault>(op),
        field_top(op) == 6,
    ensures
        m.tick(keys, byte) matches Ok(after) && after.v[field_x(op) as int] == field_kk(op)
            && after.pc == m.pc + 2,
{
    lemma_running_step(m, keys, byte, Instruction::LoadImm { x: field_x(op), kk: field_kk(op) });
}

/// `8xy4` with `Vx = a` and `Vy = b` sets `VF` to 1 if `a + b > 255` and
/// to 0 if not, and, where `x` is not the flag register itself, `Vx` to
/// `(a + b) mod 256`.
pub proof fn law_add_carry(m: Machine, keys: Seq<bool>, byte: u8, op: u16)
    requires
        m.wf(),
        m.wait is None,
        m.fetch() == Ok::<u16, Fault>(op),
        field_top(op) == 8,
        field_n(op) == 4,
    ensures
        m.tick(keys, byte) matches Ok(after) && {
            let x = field_x(op) as int;
            let sum = m.v[x] as int + m.v[field_y(op) as int] as int;
            &&& after.v[0xF] == (if sum > 255 { 1u8 } else { 0u8 })
            &&& x != 0xF ==> after.v[x] == sum % 256
        },
{
    lemma_running_step(m, keys, byte, Instruction::AddReg { x: field_x(op), y: field_y(op) });
}

/// `8xy5` with `Vx = a` and `Vy = b`, neither register being the flag
/// register, sets `VF` to 1 if `a > b` and to 0 if not, and `Vx` to
/// `(a - b) mod 256`.
pub proof fn law_sub_borrow(m: Machine, keys: Seq<bool>, byte: u8, op: u16)
    requires
        m.wf(),
        m.wait is None,
        m.fetch() == Ok::<u16, Fault>(op),
        field_top(op) == 8,
        field_n(op) == 5,
        field_x(op) != 0xF,
        field_y(op) != 0xF,
    ensures
        m.tick(keys, byte) matches Ok(after) && {
            let a = m.v[field_x(op) as int] as int;
            let b = m.v[field_y(op) as int] as int;
            &&& after.v[0xF] == (if a > b { 1u8 } else { 0u8 })
            &&& after.v[field_x(op) as int] == (a - b) % 256
        },
{
    lemma_running_step(m, keys, byte, Instruction::SubReg { x: field_x(op), y: field_y(op) });
}

/// A call followed at once by a return comes back to the instruction
/// after the call and leaves the stack as it was: where a machine with
/// room on its stack executes `2nnn` and finds `00EE` at `nnn`, two steps
/// take the program counter to the address of the call plus 2.
pub proof fn law_call_return(
    m: Machine,
    keys1: Seq<bool>,
    byte1: u8,
    keys2: Seq<bool>,
    byte2: u8,
    op: u16,
)
    requires
        m.wf(),
        m.wait is None,
        m.fetch() == Ok::<u16, Fault>(op),
        field_top(op) == 2,
        m.stack.len() < 16,
        m.tick(keys1, byte1) matches Ok(called) && called.current() == Ok::<Instruction, Fault>(
            Instruction::Ret,
        ),
    ensures
        m.tick(keys1, byte1) matches Ok(called) && called.tick(keys2, byte2) matches Ok(back)
            && back.pc == m.pc + 2 && back.stack == m.stack,
{
    let nnn = crate::instruction::field_nnn(op);
    lemma_running_step(m, keys1, byte1, Instruction::Call { nnn });
    let called = m.tick(keys1, byte1).unwrap();
    lemma_running_step(called, keys2, byte2, Instruction::Ret);
    let back = called.tick(keys2, byte2).unwrap();
    assert(back.stack =~= m.stack);
}

/// `Fx0A` makes the machine wait for register `x` and moves the program
/// counter on by 2.
pub proof fn law_wait_begins(m: Machine, keys: Seq<bool>, byte: u8, op: u16)
    requires
        m.wf(),
        m.wait is None,
        m.fetch() == Ok::<u16, Fault>(op),
        field_top(op) == 0xF,
        field_kk(op) == 0x0A,
    ensures
        m.tick(keys, byte) matches Ok(after) && after.wait == Some(field_x(op)) && after.pc
            == m.pc + 2 && after.v == m.v,
{
    lemma_running_step(m, keys, byte, Instruction::WaitKey { x: field_x(op) });
}

/// A waiting machine that is shown no pressed key goes on waiting:
/// nothing changes but the keys it holds, the dirty flag, which is
/// cleared, and the step count.
pub proof fn law_wait_holds(m: Machine, keys: Seq<bool>, byte: u8)
    requires
        m.wait is Some,
        none_pressed(keys),
    ensures
        m.tick(keys, byte) == Ok::<Machine, Fault>(m.latch(keys)),
        m.latch(keys).pc == m.pc,
        m.latch(keys).v == m.v,
        m.latch(keys).wait == m.wait,
        m.latch(keys).dt == m.dt,
        m.latch(keys).st == m.st,
{
}

/// A waiting machine that is shown pressed keys stores the lowest of
/// them in the register it waits for and stops waiting. No instruction is
/// executed in that step: the program counter, the memory, the timers and
/// the other registers stay as they are.
pub proof fn law_wait_ends(m: Machine, keys: Seq<bool>, byte: u8, k: int)
    requires
        m.wf(),
        m.wait is Some,
        is_first_pressed(keys, k),
    ensures
        m.tick(keys, byte) matches Ok(after) && after.wait is None && after.v == m.v.update(
            m.wait.unwrap() as int,
            k as u8,
        ) && after.pc == m.pc && after.mem == m.mem && after.dt == m.dt && after.st == m.st
            && after.i == m.i && after.stack == m.stack && after.screen == m.screen,
{
    let c = choose|c: int| is_first_pressed(m.latch(keys).keys, c);
    assert(is_first_pressed(m.latch(keys).keys, k));
    assert(c == k);
}

/// The timers of a machine that does not wait: a step that succeeds
/// leaves each timer as it was, but on every twelfth step, where it
/// decrements each timer that is not zero. Excepted are the delay timer
/// in a step that executes `Fx15` and the sound timer in one that
/// executes `Fx18`.
pub proof fn law_timer_decay(m: Machine, keys: Seq<bool>, byte: u8, ins: Instruction)
    requires
        m.wf(),
        m.wait is None,
        m.current() == Ok::<Instruction, Fault>(ins),
        m.tick(keys, byte) is Ok,
    ensures
        m.tick(keys, byte) matches Ok(after) && {
            &&& after.phase == (m.phase + 1) % 12
            &&& !(ins is SetDelay) ==> after.dt == (if after.phase == 0 {
                decayed(m.dt)
            } else {
                m.dt
            })
            &&& !(ins is SetSound) ==> after.st == (if after.phase == 0 {
                decayed(m.st)
            } else {
                m.st
            })
        },
{
    lemma_running_step(m, keys, byte, ins);
}

/// Whether none of the first `count` steps finds the machine waiting for
/// a key or executes `Fx15`.
pub open spec fn delay_left_alone(m: Machine, keys: Seq<Seq<bool>>, bytes: Seq<u8>, count: int) -> bool {
    forall|j: int|
        0 <= j < count ==> (#[trigger] m.ticks(keys, bytes, j) matches Ok(p) ==> p.wait is None
            && !(p.current() matches Ok(ins) && ins is SetDelay))
}

/// One more step of a run that leaves the delay timer alone.
proof fn lemma_delay_one_step(p: Machine, keys: Seq<bool>, byte: u8)
    requires
        p.wf(),
        keys.len() == 16,
        p.wait is None,
        !(p.current() matches Ok(ins) && ins is SetDelay),
        then_tick(Ok(p), keys, byte) is Ok,
    ensures
        then_tick(Ok(p), keys, byte) matches Ok(after) && after.wf() && after.phase == (p.phase
            + 1) % 12 && after.dt == (if after.phase == 0 {
            decayed(p.dt)
        } else {
            p.dt
        }),
{
    reveal(then_tick);
    law_step_keeps_wf(p, keys, byte);
    law_timer_decay(p, keys, byte, p.current().unwrap());
}

/// A run that has met a fault stays with it.
proof fn lemma_fault_stays(f: Fault, keys: Seq<bool>, byte: u8)
    ensures
        then_tick(Err(f), keys, byte) is Err,
{
    reveal(then_tick);
}

/// Counting the twelfth steps one step further.
proof fn lemma_twelfths(phase: int, count: int, dt: int, before: int, after: int)
    requires
        0 <= phase < 12,
        0 <= count,
        0 <= dt,
        before == (if dt >= (phase + count) / 12 { dt - (phase + count) / 12 } else { 0 }),
        after == (if (phase + count + 1) % 12 == 0 && before > 0 { before - 1 } else { before }),
    ensures
        after == (if dt >= (phase + count + 1) / 12 { dt - (phase + count + 1) / 12 } else { 0 }),
        ((phase + count) % 12 + 1) % 12 == (phase + count + 1) % 12,
{
}

/// The delay timer decays by one in twelve steps: after `count` steps
/// that all succeed, none of them spent waiting for a key or executing
/// `Fx15`, the timer has been decremented once for every twelfth step
/// among them, stopping at zero. So a timer of 5 reads 0 after 60 such
/// steps.
pub proof fn law_delay_after_steps(m: Machine, keys: Seq<Seq<bool>>, bytes: Seq<u8>, count: int)
    requires
        m.wf(),
        0 <= count <= keys.len(),
        count <= bytes.len(),
        forall|j: int| 0 <= j < count ==> (#[trigger] keys[j]).len() == 16,
        m.ticks(keys, bytes, count) is Ok,
        delay_left_alone(m, keys, bytes, count),
    ensures
        m.ticks(keys, bytes, count) matches Ok(after) && {
            let twelfths = (m.phase + count) / 12;
            &&& after.wf()
            &&& after.phase == (m.phase + count) % 12
            &&& after.dt == (if m.dt >= twelfths { m.dt - twelfths } else { 0 })
            &&& count == 60 && m.dt == 5 ==> after.dt == 0
        },
    decreases count,
{
    if count > 0 {
        let before = m.ticks(keys, bytes, count - 1);
        if let Err(f) = before {
            lemma_fault_stays(f, keys[count - 1], bytes[count - 1]);
        }
        let p = before.unwrap();
        assert(delay_left_alone(m, keys, bytes, count - 1));
        law_delay_after_steps(m, keys, bytes, count - 1);
        lemma_delay_one_step(p, keys[count - 1], bytes[count - 1]);
        let after = then_tick(Ok(p), keys[count - 1], bytes[count - 1]).unwrap();
        lemma_twelfths(m.phase, count - 1, m.dt as int, p.dt as int, after.dt as int);
    }
}

/// `Fx33` leaves three decimal digits at `I`, `I+1` and `I+2` that
/// together are `Vx`.
pub proof fn law_bcd_digits(m: Machine, x: usize)
    requires
        m.wf(),
        x < 16,
        m.i + 2 < 4096,
    ensures
        m.effect(Instruction::Bcd { x }, 0) matches Ok((after, ord)) && {
            let d = after.mem.subrange(m.i as int, m.i + 3);
            &&& d[0] < 10 && d[1] < 10 && d[2] < 10
            &&& d[0] * 100 + d[1] * 10 + d[2] == m.v[x as int]
            &&& forall|a: int| 0 <= a < 4096 && !(m.i <= a < m.i + 3) ==> after.mem[a] == m.mem[a]
        },
{
}

/// Storing `V0..=Vx` with `Fx55` and loading them with `Fx65` from the
/// same address gives the stored values back, whatever the registers held
/// in between, and leaves the registers above `Vx` as they were before
/// the load.
pub proof fn law_store_load(m: Machine, x: usize, between: Seq<u8>)
    requires
        m.wf(),
        x < 16,
        m.i + x < 4096,
        between.len() == 16,
    ensures
        m.effect(Instruction::Store { x }, 0) matches Ok((stored, o1)) && (Machine {
            v: between,
            ..stored
        }).effect(Instruction::Load { x }, 0) matches Ok((loaded, o2)) && {
            &&& forall|j: int| 0 <= j <= x ==> loaded.v[j] == m.v[j]
            &&& forall|j: int| x < j < 16 ==> loaded.v[j] == between[j]
            &&& loaded.mem == stored.mem
        },
{
}

/// Only `Cxkk` uses the random byte: a step of a machine that is not
/// about to execute `Cxkk` is the same for every byte.
pub proof fn law_random_only_for_cxkk(m: Machine, keys: Seq<bool>, byte1: u8, byte2: u8)
    requires
        m.wf(),
        !m.wants_random(),
    ensures
        m.tick(keys, byte1) == m.tick(keys, byte2),
{
    if m.wait is None && m.pc <= 0xFFE {
        let d = m.latch(keys).decay();
        let hi = m.mem[m.pc as int];
        let lo = m.mem[m.pc + 1];
        let op = crate::instruction::word(hi, lo);
        assert(field_top(op) == hi as int / 16);
        assert(d.fetch() == Ok::<u16, Fault>(op));
    }
}

/// `Cxkk` sets `Vx` to the random byte masked by `kk`, so no bit that is
/// clear in `kk` is set in `Vx`.
pub proof fn law_random_masked(m: Machine, keys: Seq<bool>, byte: u8, op: u16)
    requires
        m.wf(),
        m.wait is None,
        m.fetch() == Ok::<u16, Fault>(op),
        field_top(op) == 0xC,
    ensures
        m.tick(keys, byte) matches Ok(after) && after.v[field_x(op) as int] == byte & field_kk(op)
            && after.v[field_x(op) as int] & !field_kk(op) == 0,
{
    lemma_running_step(m, keys, byte, Instruction::Random { x: field_x(op), kk: field_kk(op) });
    let kk = field_kk(op);
    assert((byte & kk) & !kk == 0) by (bit_vector);
}

/// Executing a well-formed instruction keeps a machine well formed: the
/// stack never holds more than sixteen addresses and the sizes of the
/// registers, the memory and the display never change.
pub proof fn law_execute_keeps_wf(m: Machine, ins: Instruction, byte: u8)
    requires
        m.wf(),
        ins.wf(),
    ensures
        m.execute(ins, byte) matches Ok(after) ==> after.wf(),
{
    if let Instruction::Draw { x, y, n } = ins {
        let start = Canvas { v: m.v.update(0xF, 0u8), screen: m.screen };
        lemma_draw_rows_wf(start, x as int, y as int, m.sprite(n as int), n as int);
    }
}

/// A step keeps a machine well formed.
pub proof fn law_step_keeps_wf(m: Machine, keys: Seq<bool>, byte: u8)
    requires
        m.wf(),
        keys.len() == 16,
    ensures
        m.tick(keys, byte) matches Ok(after) ==> after.wf(),
{
    if m.wait is None {
        let d = m.latch(keys).decay();
        if let Ok(op) = d.fetch() {
            lemma_decode_wf(op);
            if let Ok(ins) = spec_decode(op) {
                law_execute_keeps_wf(d, ins, byte);
            }
        }
    }
}

/// The closed form of `Dxyn` where neither `x` nor `y` is the flag
/// register. Each display pixel is flipped exactly where the sprite, its
/// top left corner at `(Vx, Vy)` and wrapped around the edges of the
/// display, has a set pixel on it. `VF` becomes 1 if a set sprite pixel
/// lands on a display pixel that was set and 0 if none does. The display
/// is marked dirty and nothing else changes.
pub proof fn law_draw_pixelwise(m: Machine, x: usize, y: usize, n: u8)
    requires
        m.wf(),
        x < 15,
        y < 15,
        n < 16,
    ensures
        ({
            let after = m.draw_sprite(x as int, y as int, n as int);
            let left = m.v[x as int] as int;
            let top = m.v[y as int] as int;
            let sprite = m.sprite(n as int);
            &&& after.wf()
            &&& after == (Machine {
                v: m.v.update(0xF, if collides(m.screen, sprite, left, top) { 1u8 } else { 0u8 }),
                screen: after.screen,
                dirty: true,
                ..m
            })
            &&& forall|px: int, py: int|
                0 <= px < 64 && 0 <= py < 32 ==> #[trigger] after.screen[px][py] == (
                m.screen[px][py] != covers(sprite, left, top, px, py))
        }),
{
    lemma_draw_closed_form(m.v, m.screen, x as int, y as int, m.sprite(n as int));
}

/// Drawing a sprite twice at the same place restores the display: where
/// neither `x` nor `y` is the flag register, a second `Dxyn` undoes the
/// first. After the second, `VF` is 1 if a set sprite pixel had landed on
/// a display pixel that was clear before the first, and 0 if none had.
pub proof fn law_draw_twice(m: Machine, x: usize, y: usize, n: u8)
    requires
        m.wf(),
        x < 15,
        y < 15,
        n < 16,
    ensures
        ({
            let once = m.draw_sprite(x as int, y as int, n as int);
            let twice = once.draw_sprite(x as int, y as int, n as int);
            let left = m.v[x as int] as int;
            let top = m.v[y as int] as int;
            let sprite = m.sprite(n as int);
            &&& twice.screen == m.screen
            &&& twice.v[0xF] == 1 <==> exists|r: int, b: int|
                0 <= r < n && 0 <= b < 8 && #[trigger] sprite_bit(sprite[r], b) && !m.screen[(left
                    + b) % 64][(top + r) % 32]
            &&& twice.v[0xF] == 0 || twice.v[0xF] == 1
        }),
{
    let once = m.draw_sprite(x as int, y as int, n as int);
    let twice = once.draw_sprite(x as int, y as int, n as int);
    let left = m.v[x as int] as int;
    let top = m.v[y as int] as int;
    let sprite = m.sprite(n as int);
    law_draw_pixelwise(m, x, y, n);
    law_draw_pixelwise(once, x, y, n);
    assert(once.sprite(n as int) == sprite);
    assert forall|px: int, py: int| 0 <= px < 64 && 0 <= py < 32 implies #[trigger] twice.screen[px][py]
        == m.screen[px][py] by {
        assert(once.screen[px][py] == (m.screen[px][py] != covers(sprite, left, top, px, py)));
    }
    assert(twice.screen =~~= m.screen);
    assert forall|r: int, b: int| 0 <= r < n && 0 <= b < 8 implies hits(
        once.screen,
        sprite,
        left,
        top,
        r,
        b,
    ) == (sprite_bit(sprite[r], b) && !m.screen[(left + b) % 64][(top + r) % 32]) by {
        let px = (left + b) % 64;
        let py = (top + r) % 32;
        assert((px - left) % 64 == b);
        assert((py - top) % 32 == r);
        assert(once.screen[px][py] == (m.screen[px][py] != covers(sprite, left, top, px, py)));
    }
    if collides(once.screen, sprite, left, top) {
        let (r, b) = choose|r: int, b: int|
            0 <= r < sprite.len() && 0 <= b < 8 && #[trigger] hits(
                once.screen,
                sprite,
                left,
                top,
                r,
                b,
            );
        assert(sprite_bit(sprite[r], b) && !m.screen[(left + b) % 64][(top + r) % 32]);
    }
    if exists|r: int, b: int|
        0 <= r < n && 0 <= b < 8 && #[trigger] sprite_bit(sprite[r], b) && !m.screen[(left + b)
            % 64][(top + r) % 32] {
        let (r, b) = choose|r: int, b: int|
            0 <= r < n && 0 <= b < 8 && #[trigger] sprite_bit(sprite[r], b) && !m.screen[(left
                + b) % 64][(top + r) % 32];
        assert(hits(once.screen, sprite, left, top, r, b));
    }
}

} // verus!
