use chip8::keypad::{key_for, snapshot};
use chip8::render::{frame_rects, CellRect};
use chip8::Cpu;

#[test]
fn keyboard_rows_stand_for_the_keypad() {
    let layout = [
        ('1', 0x1),
        ('2', 0x2),
        ('3', 0x3),
        ('4', 0x4),
        ('q', 0x5),
        ('w', 0x6),
        ('e', 0x7),
        ('r', 0x8),
        ('a', 0x9),
        ('s', 0x0),
        ('d', 0xA),
        ('f', 0xB),
        ('z', 0xC),
        ('x', 0xD),
        ('c', 0xE),
        ('v', 0xF),
    ];
    for (symbol, key) in layout {
        assert_eq!(key_for(symbol), Some(key));
    }
}

#[test]
fn other_keys_stand_for_nothing() {
    for symbol in ['0', '5', '9', 'g', 'Q', 'A', ' ', '\u{1b}', '\n', 'é'] {
        assert_eq!(key_for(symbol), None);
    }
}

#[test]
fn snapshot_holds_the_keys_that_went_down() {
    assert_eq!(snapshot(&Vec::new()), [false; 16]);
    let keys = snapshot(&vec!['q', 'p', 'v', 'q', 's']);
    for key in 0..16 {
        assert_eq!(keys[key], key == 0x5 || key == 0xF || key == 0x0);
    }
}

#[test]
fn frame_has_one_rectangle_per_cell() {
    // Draw glyph 0 at (0, 0).
    let mut cpu = Cpu::new(vec![0xD0, 0x05]).unwrap();
    assert_eq!(cpu.tick([false; 16]), Ok(()));
    let rects = frame_rects(cpu.vmem(), 1, 1, 10).unwrap();
    assert_eq!(rects.len(), 64 * 32);
    for y in 0..32 {
        for x in 0..64 {
            assert_eq!(
                rects[y * 64 + x],
                CellRect {
                    x: x as i32 * 10,
                    y: y as i32 * 10,
                    width: 10,
                    height: 10,
                    lit: cpu.vmem()[x][y] == 1,
                }
            );
        }
    }
    assert!(rects[0].lit);
    assert!(!rects[64 + 1].lit);
    assert!(rects[64 + 3].lit);
}

#[test]
fn cell_sides_are_scaled() {
    let blank = [[0u8; 32]; 64];
    let rects = frame_rects(&blank, 2, 3, 4).unwrap();
    assert_eq!(rects[65], CellRect { x: 4, y: 4, width: 8, height: 12, lit: false });
    let rects = frame_rects(&blank, 7, 9, 0).unwrap();
    assert_eq!(rects[2047], CellRect { x: 0, y: 0, width: 0, height: 0, lit: false });
}

#[test]
fn frame_that_does_not_fit_is_refused() {
    let blank = [[0u8; 32]; 64];
    assert!(frame_rects(&blank, 1, 1, 34_087_042).is_some());
    assert!(frame_rects(&blank, 1, 1, 34_087_043).is_none());
    assert!(frame_rects(&blank, 65_536, 1, 65_536).is_none());
    assert!(frame_rects(&blank, 1, 65_536, 65_536).is_none());
    assert!(frame_rects(&blank, 65_535, 65_535, 65_536).is_some());
}
