//! The rectangles that show the display in a window.

use vstd::prelude::*;
use crate::consts::{SCR_HEIGHT, SCR_WIDTH};

verus! {

/// The rectangle for one display cell, in window pixels, and whether the
/// cell is set.
#[derive(Clone, Copy, Debug, PartialEq, Eq, Structural)]
pub struct CellRect {
    pub x: i32,
    pub y: i32,
    pub width: u32,
    pub height: u32,
    pub lit: bool,
}

/// Whether every rectangle of a frame can be written down: the left edge
/// of the last column fits a signed and each side an unsigned 32-bit
/// number.
pub open spec fn frame_fits(width: u32, height: u32, scale: u32) -> bool {
    &&& 63 * scale <= i32::MAX
    &&& width * scale <= u32::MAX
    &&& height * scale <= u32::MAX
}

/// The rectangle for the cell in column `x` and row `y`: its corner is at
/// `scale` times the cell's position and its sides are `scale` times
/// `width` and `height`.
pub open spec fn cell_rect(cell: u8, x: int, y: int, width: u32, height: u32, scale: u32) -> CellRect {
    CellRect {
        x: (x * scale) as i32,
        y: (y * scale) as i32,
        width: (width * scale) as u32,
        height: (height * scale) as u32,
        lit: cell == 1,
    }
}

/// One rectangle per display cell, row by row from the top and each row
/// from the left, or `None` where the rectangles do not fit.
pub fn frame_rects(vmem: &[[u8; SCR_HEIGHT]; SCR_WIDTH], width: u32, height: u32, scale: u32) -> (r:
    Option<Vec<CellRect>>)
    ensures
        match r {
            Some(rects) => {
                &&& frame_fits(width, height, scale)
                &&& rects.len() == 2048
                &&& forall|x: int, y: int|
                    0 <= x < 64 && 0 <= y < 32 ==> rects[y * 64 + x] == cell_rect(
                        #[trigger] vmem[x][y],
                        x,
                        y,
                        width,
                        height,
                        scale,
                    )
            },
            None => !frame_fits(width, height, scale),
        },
{
    if scale > 34087042 {
        return None;
    }
    let w: u32 = match width.checked_mul(scale) {
        Some(w) => w,
        None => {
            return None;
        },
    };
    let h: u32 = match height.checked_mul(scale) {
        Some(h) => h,
        None => {
            return None;
        },
    };
    let mut rects: Vec<CellRect> = Vec::new();
    let mut y: usize = 0;
    while y < SCR_HEIGHT
        invariant
            y <= 32,
            scale <= 34087042,
            w == width * scale,
            h == height * scale,
            rects.len() == y * 64,
            forall|px: int, py: int|
                0 <= px < 64 && 0 <= py < y ==> rects[py * 64 + px] == cell_rect(
                    #[trigger] vmem[px][py],
                    px,
                    py,
                    width,
                    height,
                    scale,
                ),
        decreases 32 - y,
    {
        let mut x: usize = 0;
        while x < SCR_WIDTH
            invariant
                y < 32,
                x <= 64,
                scale <= 34087042,
                w == width * scale,
                h == height * scale,
                rects.len() == y * 64 + x,
                forall|px: int, py: int|
                    0 <= px < 64 && 0 <= py < 32 && py * 64 + px < y * 64 + x ==> rects[py * 64
                        + px] == cell_rect(#[trigger] vmem[px][py], px, py, width, height, scale),
            decreases 64 - x,
        {
            assert(x * scale <= 63 * 34087042 && y * scale <= 31 * 34087042) by (nonlinear_arith)
                requires
                    x <= 63,
                    y <= 31,
                    scale <= 34087042,
            ;
            let rect = CellRect {
                x: (x as u32 * scale) as i32,
                y: (y as u32 * scale) as i32,
                width: w,
                height: h,
                lit: vmem[x][y] == 1,
            };
            rects.push(rect);
            x += 1;
        }
        y += 1;
    }
    Some(rects)
}

} // verus!
