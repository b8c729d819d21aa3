//! The hexadecimal keypad and the keys of a keyboard that stand for it.
//!
//! The sixteen keys are laid out on the left of a keyboard as
//!
//! ```text
//! 1 2 3 4        1 2 3 4
//! q w e r   for  5 6 7 8
//! a s d f        9 0 A B
//! z x c v        C D E F
//! ```

use vstd::prelude::*;
use crate::consts::KEY_COUNT;

verus! {

/// The keypad key that the keyboard key printing `symbol` stands for.
pub open spec fn spec_key_for(symbol: char) -> Option<usize> {
    if symbol == '1' {
        Some(0x1usize)
    } else if symbol == '2' {
        Some(0x2usize)
    } else if symbol == '3' {
        Some(0x3usize)
    } else if symbol == '4' {
        Some(0x4usize)
    } else if symbol == 'q' {
        Some(0x5usize)
    } else if symbol == 'w' {
        Some(0x6usize)
    } else if symbol == 'e' {
        Some(0x7usize)
    } else if symbol == 'r' {
        Some(0x8usize)
    } else if symbol == 'a' {
        Some(0x9usize)
    } else if symbol == 's' {
        Some(0x0usize)
    } else if symbol == 'd' {
        Some(0xAusize)
    } else if symbol == 'f' {
        Some(0xBusize)
    } else if symbol == 'z' {
        Some(0xCusize)
    } else if symbol == 'x' {
        Some(0xDusize)
    } else if symbol == 'c' {
        Some(0xEusize)
    } else if symbol == 'v' {
        Some(0xFusize)
    } else {
        None
    }
}

/// The keyboard key that stands for keypad key `key`.
pub open spec fn spec_symbol_for(key: usize) -> char {
    seq!['s', '1', '2', '3', '4', 'q', 'w', 'e', 'r', 'a', 'd', 'f', 'z', 'x', 'c', 'v'][key as int]
}

/// Whether one of `symbols` stands for keypad key `key`.
pub open spec fn names_key(symbols: Seq<char>, key: usize) -> bool {
    exists|j: int| 0 <= j < symbols.len() && spec_key_for(#[trigger] symbols[j]) == Some(key)
}

/// Each keypad key has exactly one keyboard key: the two tables are
/// inverse to each other.
pub proof fn law_keypad_one_to_one(symbol: char, key: usize)
    ensures
        key < 16 ==> spec_key_for(spec_symbol_for(key)) == Some(key),
        spec_key_for(symbol) == Some(key) ==> key < 16 && spec_symbol_for(key) == symbol,
{
}

/// The keypad key that the keyboard key printing `symbol` stands for, if
/// it stands for one.
pub fn key_for(symbol: char) -> (r: Option<usize>)
    ensures
        r == spec_key_for(symbol),
        r matches Some(key) ==> key < 16,
{
    match symbol {
        '1' => Some(0x1),
        '2' => Some(0x2),
        '3' => Some(0x3),
        '4' => Some(0x4),
        'q' => Some(0x5),
        'w' => Some(0x6),
        'e' => Some(0x7),
        'r' => Some(0x8),
        'a' => Some(0x9),
        's' => Some(0x0),
        'd' => Some(0xA),
        'f' => Some(0xB),
        'z' => Some(0xC),
        'x' => Some(0xD),
        'c' => Some(0xE),
        'v' => Some(0xF),
        _ => None,
    }
}

/// The key snapshot for a cycle in which the keyboard keys printing
/// `symbols` went down: a keypad key is pressed if one of them stands for
/// it.
pub fn snapshot(symbols: &Vec<char>) -> (keys: [bool; KEY_COUNT])
    ensures
        forall|key: usize| key < 16 ==> keys[key as int] == names_key(symbols@, key),
{
    let mut keys: [bool; KEY_COUNT] = [false; KEY_COUNT];
    let mut j: usize = 0;
    while j < symbols.len()
        invariant
            j <= symbols.len(),
            forall|key: usize| key < 16 ==> keys[key as int] == names_key(symbols@.take(j as int), key),
        decreases symbols.len() - j,
    {
        match key_for(symbols[j]) {
            Some(key) => {
                keys[key] = true;
            },
            None => {},
        }
        proof {
            let seen = symbols@.take(j as int);
            let more = symbols@.take(j + 1);
            assert forall|key: usize| key < 16 implies keys[key as int] == names_key(more, key) by {
                if names_key(seen, key) {
                    let w = choose|w: int|
                        0 <= w < seen.len() && spec_key_for(#[trigger] seen[w]) == Some(key);
                    assert(more[w] == seen[w]);
                }
                if names_key(more, key) {
                    let w = choose|w: int|
                        0 <= w < more.len() && spec_key_for(#[trigger] more[w]) == Some(key);
                    if w < j {
                        assert(seen[w] == more[w]);
                    }
                }
                if spec_key_for(symbols@[j as int]) == Some(key) {
                    assert(more[j as int] == symbols@[j as int]);
                }
            }
        }
        j += 1;
    }
    proof {
        assert(symbols@.take(symbols.len() as int) =~= symbols@);
    }
    keys
}

} // verus!
