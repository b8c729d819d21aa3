//! The machine in words, for a prompt or a log.

use vstd::prelude::*;
use vstd::string::StringExecFns;
use crate::machine::Machine;

verus! {

/// The digit for `d` in a base up to sixteen, letters in lower case.
pub open spec fn digit(d: int) -> char {
    seq!['0', '1', '2', '3', '4', '5', '6', '7', '8', '9', 'a', 'b', 'c', 'd', 'e', 'f'][d]
}

/// The digits of `n` in base ten, the highest first, without leading zeros.
pub open spec fn decimal(n: int) -> Seq<char>
    decreases n,
{
    if n < 10 {
        seq![digit(n)]
    } else {
        decimal(n / 10).push(digit(n % 10))
    }
}

/// The digits of `n` in base sixteen, the highest first, without leading
/// zeros.
pub open spec fn hexadecimal(n: int) -> Seq<char>
    decreases n,
{
    if n < 16 {
        seq![digit(n)]
    } else {
        hexadecimal(n / 16).push(digit(n % 16))
    }
}

/// What stands before the value of register `x`.
pub open spec fn register_label(x: int) -> Seq<char> {
    if x == 0x0 {
        "V[0x0]:("@
    } else if x == 0x1 {
        "V[0x1]:("@
    } else if x == 0x2 {
        "V[0x2]:("@
    } else if x == 0x3 {
        "V[0x3]:("@
    } else if x == 0x4 {
        "V[0x4]:("@
    } else if x == 0x5 {
        "V[0x5]:("@
    } else if x == 0x6 {
        "V[0x6]:("@
    } else if x == 0x7 {
        "V[0x7]:("@
    } else if x == 0x8 {
        "V[0x8]:("@
    } else if x == 0x9 {
        "V[0x9]:("@
    } else if x == 0xA {
        "V[0xA]:("@
    } else if x == 0xB {
        "V[0xB]:("@
    } else if x == 0xC {
        "V[0xC]:("@
    } else if x == 0xD {
        "V[0xD]:("@
    } else if x == 0xE {
        "V[0xE]:("@
    } else {
        "V[0xF]:("@
    }
}

/// The first `count` registers, each as its label, its value in decimal
/// and a closing bracket, with a comma and a space between two of them.
pub open spec fn registers_listed(v: Seq<u8>, count: int) -> Seq<char>
    decreases count,
{
    if count <= 0 {
        Seq::empty()
    } else {
        let one = register_label(count - 1) + decimal(v[count - 1] as int) + ")"@;
        if count == 1 {
            one
        } else {
            registers_listed(v, count - 1) + ", "@ + one
        }
    }
}

/// The sixteen registers in square brackets.
pub open spec fn registers_text(v: Seq<u8>) -> Seq<char> {
    "["@ + registers_listed(v, 16) + "]"@
}

/// The registers, the address register and the program counter in
/// hexadecimal, and the two timers in decimal, one to a line.
pub open spec fn machine_text(m: Machine) -> Seq<char> {
    "\tRegisters: "@ + registers_text(m.v) + "\n\tI: 0x"@ + hexadecimal(m.i as int)
        + "\n\tProgram Counter: 0x"@ + hexadecimal(m.pc as int) + "\n\tDelay Timer: "@ + decimal(m.dt as int) + "\n\tSound Timer: "@ + decimal(m.st as int) + "\n"@
}

/// The digit for `d` as a string.
fn digit_str(d: u16) -> (r: &'static str)
    requires
        d < 16,
    ensures
        r@ == seq![digit(d as int)],
{
    proof {
        reveal_strlit("0");
        reveal_strlit("1");
        reveal_strlit("2");
        reveal_strlit("3");
        reveal_strlit("4");
        reveal_strlit("5");
        reveal_strlit("6");
        reveal_strlit("7");
        reveal_strlit("8");
        reveal_strlit("9");
        reveal_strlit("a");
        reveal_strlit("b");
        reveal_strlit("c");
        reveal_strlit("d");
        reveal_strlit("e");
        reveal_strlit("f");
    }
    let r = match d {
        0 => "0",
        1 => "1",
        2 => "2",
        3 => "3",
        4 => "4",
        5 => "5",
        6 => "6",
        7 => "7",
        8 => "8",
        9 => "9",
        10 => "a",
        11 => "b",
        12 => "c",
        13 => "d",
        14 => "e",
        _ => "f",
    };
    r
}

/// What stands before the value of register `x`.
fn label_str(x: usize) -> (r: &'static str)
    requires
        x < 16,
    ensures
        r@ == register_label(x as int),
{
    match x {
        0x0 => "V[0x0]:(",
        0x1 => "V[0x1]:(",
        0x2 => "V[0x2]:(",
        0x3 => "V[0x3]:(",
        0x4 => "V[0x4]:(",
        0x5 => "V[0x5]:(",
        0x6 => "V[0x6]:(",
        0x7 => "V[0x7]:(",
        0x8 => "V[0x8]:(",
        0x9 => "V[0x9]:(",
        0xA => "V[0xA]:(",
        0xB => "V[0xB]:(",
        0xC => "V[0xC]:(",
        0xD => "V[0xD]:(",
        0xE => "V[0xE]:(",
        _ => "V[0xF]:(",
    }
}

/// Appends `n` in decimal.
pub(crate) fn append_decimal(text: &mut String, n: u16)
    ensures
        final(text)@ == old(text)@ + decimal(n as int),
    decreases n,
{
    if n < 10 {
        text.append(digit_str(n));
    } else {
        append_decimal(text, n / 10);
        text.append(digit_str(n % 10));
        proof {
            assert(text@ =~= old(text)@ + decimal(n as int));
        }
    }
}

/// Appends `n` in hexadecimal.
pub(crate) fn append_hexadecimal(text: &mut String, n: u16)
    ensures
        final(text)@ == old(text)@ + hexadecimal(n as int),
    decreases n,
{
    if n < 16 {
        text.append(digit_str(n));
    } else {
        append_hexadecimal(text, n / 16);
        text.append(digit_str(n % 16));
        proof {
            assert(text@ =~= old(text)@ + hexadecimal(n as int));
        }
    }
}

/// Appends the sixteen registers in square brackets.
pub(crate) fn append_registers(text: &mut String, v: &[u8; 16])
    ensures
        final(text)@ == old(text)@ + registers_text(v@),
{
    text.append("[");
    let mut x: usize = 0;
    while x < 16
        invariant
            x <= 16,
            text@ == old(text)@ + "["@ + registers_listed(v@, x as int),
        decreases 16 - x,
    {
        let ghost before = text@;
        if x > 0 {
            text.append(", ");
        }
        text.append(label_str(x));
        append_decimal(text, v[x] as u16);
        text.append(")");
        x += 1;
        proof {
            let one = register_label(x as int - 1) + decimal(v@[x as int - 1] as int) + ")"@;
            if x == 1 {
                assert(text@ =~= old(text)@ + "["@ + one);
            } else {
                assert(text@ =~= before + ", "@ + one);
                assert(text@ =~= old(text)@ + "["@ + (registers_listed(v@, x as int - 1) + ", "@
                    + one));
            }
        }
    }
    text.append("]");
}

} // verus!
