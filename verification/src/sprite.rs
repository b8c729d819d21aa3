//! What drawing a sprite does to the flag register and the display.
//!
//! A sprite is a sequence of bytes, one per row, the highest bit leftmost.
//! It is drawn pixel by pixel, rows from the top and each row from the left.
//! The target column of a pixel is taken from register `x` when that pixel
//! is drawn and the target row from register `y` when its row is begun, so
//! a sprite positioned by the flag register moves while it is drawn.
//! [`crate::laws::law_draw_pixelwise`] gives the closed form for every other
//! choice of registers.

use vstd::prelude::*;

verus! {

/// The registers and the display while a sprite is drawn. `screen[x][y]`
/// is the pixel in column `x` and row `y`.
#[verifier::ext_equal]
pub struct Canvas {
    /// The registers V0..VF.
    pub v: Seq<u8>,
    /// The display, one sequence of pixels per column.
    pub screen: Seq<Seq<bool>>,
}

/// A display of the given width and height with no pixel set.
pub open spec fn blank(width: int, height: int) -> Seq<Seq<bool>> {
    Seq::new(width as nat, |x: int| Seq::new(height as nat, |y: int| false))
}

/// Whether pixel `bit` of a sprite row is set, `bit` 0 being the leftmost.
pub open spec fn sprite_bit(row: u8, bit: int) -> bool {
    (row >> ((7 - bit) as u8)) & 1u8 == 1u8
}

/// Draws one sprite pixel into row `py`: the display pixel is flipped where
/// the sprite pixel is set, and the flag becomes 1 where both were set.
pub open spec fn plot(c: Canvas, x: int, py: int, bit: int, lit: bool) -> Canvas {
    let px = (c.v[x] as int + bit) % 64;
    let was = c.screen[px][py];
    Canvas {
        v: if lit && was {
            c.v.update(0xF, 1u8)
        } else {
            c.v
        },
        screen: c.screen.update(px, c.screen[px].update(py, was != lit)),
    }
}

/// Draws the first `bits` pixels of a sprite row into row `py`.
pub open spec fn draw_row(c: Canvas, x: int, py: int, row: u8, bits: int) -> Canvas
    decreases bits,
{
    if bits <= 0 {
        c
    } else {
        plot(draw_row(c, x, py, row, bits - 1), x, py, bits - 1, sprite_bit(row, bits - 1))
    }
}

/// The display row that sprite row `r` goes to.
pub open spec fn target_row(c: Canvas, y: int, r: int) -> int {
    (c.v[y] as int + r) % 32
}

/// Draws the first `rows` rows of a sprite.
pub open spec fn draw_rows(c: Canvas, x: int, y: int, sprite: Seq<u8>, rows: int) -> Canvas
    decreases rows,
{
    if rows <= 0 {
        c
    } else {
        let above = draw_rows(c, x, y, sprite, rows - 1);
        draw_row(above, x, target_row(above, y, rows - 1), sprite[rows - 1], 8)
    }
}

/// Clears the flag and draws the whole sprite.
pub open spec fn draw(v: Seq<u8>, screen: Seq<Seq<bool>>, x: int, y: int, sprite: Seq<u8>) -> Canvas {
    draw_rows(Canvas { v: v.update(0xF, 0u8), screen }, x, y, sprite, sprite.len() as int)
}

/// A canvas has sixteen registers, the flag among them holding 0 or 1, and
/// a display of 64 columns of 32 pixels.
pub open spec fn canvas_wf(c: Canvas) -> bool {
    &&& c.v.len() == 16
    &&& c.v[0xF] <= 1
    &&& c.screen.len() == 64
    &&& forall|px: int| 0 <= px < 64 ==> (#[trigger] c.screen[px]).len() == 32
}

/// Plotting keeps a canvas well formed and leaves every register but the flag alone.
pub proof fn lemma_plot_wf(c: Canvas, x: int, py: int, bit: int, lit: bool)
    requires
        canvas_wf(c),
        0 <= x < 16,
        0 <= py < 32,
        0 <= bit,
    ensures
        canvas_wf(plot(c, x, py, bit, lit)),
        forall|j: int| 0 <= j < 15 ==> plot(c, x, py, bit, lit).v[j] == c.v[j],
{
}

/// Drawing part of a row keeps a canvas well formed and leaves every
/// register but the flag alone.
pub proof fn lemma_draw_row_wf(c: Canvas, x: int, py: int, row: u8, bits: int)
    requires
        canvas_wf(c),
        0 <= x < 16,
        0 <= py < 32,
    ensures
        canvas_wf(draw_row(c, x, py, row, bits)),
        forall|j: int| 0 <= j < 15 ==> draw_row(c, x, py, row, bits).v[j] == c.v[j],
    decreases bits,
{
    if bits > 0 {
        lemma_draw_row_wf(c, x, py, row, bits - 1);
        lemma_plot_wf(draw_row(c, x, py, row, bits - 1), x, py, bits - 1, sprite_bit(row, bits - 1));
    }
}

/// Drawing rows keeps a canvas well formed and leaves every register but
/// the flag alone.
pub proof fn lemma_draw_rows_wf(c: Canvas, x: int, y: int, sprite: Seq<u8>, rows: int)
    requires
        canvas_wf(c),
        0 <= x < 16,
        0 <= y < 16,
    ensures
        canvas_wf(draw_rows(c, x, y, sprite, rows)),
        forall|j: int| 0 <= j < 15 ==> draw_rows(c, x, y, sprite, rows).v[j] == c.v[j],
    decreases rows,
{
    if rows > 0 {
        lemma_draw_rows_wf(c, x, y, sprite, rows - 1);
        let above = draw_rows(c, x, y, sprite, rows - 1);
        lemma_draw_row_wf(above, x, target_row(above, y, rows - 1), sprite[rows - 1], 8);
    }
}

/// Whether the sprite with its top left corner at `(left, top)` has a set
/// pixel on display pixel `(px, py)`.
pub open spec fn covers(sprite: Seq<u8>, left: int, top: int, px: int, py: int) -> bool {
    let b = (px - left) % 64;
    let r = (py - top) % 32;
    b < 8 && r < sprite.len() && sprite_bit(sprite[r], b)
}

/// Whether pixel `b` of sprite row `r` is set and lands on a set pixel of
/// `screen`.
pub open spec fn hits(screen: Seq<Seq<bool>>, sprite: Seq<u8>, left: int, top: int, r: int, b: int) -> bool {
    sprite_bit(sprite[r], b) && screen[(left + b) % 64][(top + r) % 32]
}

/// Whether a set pixel of one of the first `rows` rows, or one of the
/// first `bits` pixels of row `rows`, lands on a set pixel of `screen`.
pub open spec fn hits_before(
    screen: Seq<Seq<bool>>,
    sprite: Seq<u8>,
    left: int,
    top: int,
    rows: int,
    bits: int,
) -> bool {
    exists|r: int, b: int|
        0 <= r <= rows && 0 <= b < 8 && (r < rows || b < bits) && #[trigger] hits(
            screen,
            sprite,
            left,
            top,
            r,
            b,
        )
}

/// Whether any set pixel of the sprite lands on a set pixel of `screen`.
pub open spec fn collides(screen: Seq<Seq<bool>>, sprite: Seq<u8>, left: int, top: int) -> bool {
    exists|r: int, b: int|
        0 <= r < sprite.len() && 0 <= b < 8 && #[trigger] hits(screen, sprite, left, top, r, b)
}

/// What a canvas looks like once the first `bits` pixels of sprite row
/// `rows` and all rows above it are drawn on `from`, the sprite being
/// positioned by registers other than the flag.
pub open spec fn drawn_to(
    from: Canvas,
    to: Canvas,
    x: int,
    y: int,
    sprite: Seq<u8>,
    rows: int,
    bits: int,
) -> bool {
    let left = from.v[x] as int;
    let top = from.v[y] as int;
    &&& canvas_wf(to)
    &&& forall|j: int| 0 <= j < 15 ==> to.v[j] == from.v[j]
    &&& to.v[0xF] == 1 <==> from.v[0xF] == 1 || hits_before(from.screen, sprite, left, top, rows, bits)
    &&& forall|px: int, py: int|
        0 <= px < 64 && 0 <= py < 32 ==> #[trigger] to.screen[px][py] == (from.screen[px][py] != {
            let b = (px - left) % 64;
            let r = (py - top) % 32;
            b < 8 && (r < rows || (r == rows && b < bits)) && sprite_bit(sprite[r], b)
        })
}

/// One more pixel of the current row.
proof fn lemma_plot_extends(
    from: Canvas,
    to: Canvas,
    x: int,
    y: int,
    sprite: Seq<u8>,
    rows: int,
    bits: int,
)
    requires
        canvas_wf(from),
        0 <= x < 15,
        0 <= y < 15,
        0 <= rows < 32,
        rows < sprite.len(),
        0 <= bits < 8,
        drawn_to(from, to, x, y, sprite, rows, bits),
    ensures
        drawn_to(
            from,
            plot(to, x, target_row(from, y, rows), bits, sprite_bit(sprite[rows], bits)),
            x,
            y,
            sprite,
            rows,
            bits + 1,
        ),
{
    let left = from.v[x] as int;
    let top = from.v[y] as int;
    let py = target_row(from, y, rows);
    let px = (left + bits) % 64;
    let lit = sprite_bit(sprite[rows], bits);
    let next = plot(to, x, py, bits, lit);
    assert((px - left) % 64 == bits);
    assert((py - top) % 32 == rows);
    assert(to.screen[px][py] == from.screen[px][py]);
    assert(hits(from.screen, sprite, left, top, rows, bits) == (lit && to.screen[px][py]));
    assert forall|qx: int, qy: int| 0 <= qx < 64 && 0 <= qy < 32 implies #[trigger] next.screen[qx][qy]
        == (from.screen[qx][qy] != {
        let b = (qx - left) % 64;
        let r = (qy - top) % 32;
        b < 8 && (r < rows || (r == rows && b < bits + 1)) && sprite_bit(sprite[r], b)
    }) by {
        assert(to.screen[qx][qy] == (from.screen[qx][qy] != {
            let b = (qx - left) % 64;
            let r = (qy - top) % 32;
            b < 8 && (r < rows || (r == rows && b < bits)) && sprite_bit(sprite[r], b)
        }));
        if qx == px && qy == py {
        } else {
            assert((qx - left) % 64 != bits || (qy - top) % 32 != rows);
        }
    }
    if hits_before(from.screen, sprite, left, top, rows, bits) {
        let (r, b) = choose|r: int, b: int|
            0 <= r <= rows && 0 <= b < 8 && (r < rows || b < bits) && #[trigger] hits(
                from.screen,
                sprite,
                left,
                top,
                r,
                b,
            );
        assert(hits(from.screen, sprite, left, top, r, b));
    }
    if hits_before(from.screen, sprite, left, top, rows, bits + 1) {
        let (r, b) = choose|r: int, b: int|
            0 <= r <= rows && 0 <= b < 8 && (r < rows || b < bits + 1) && #[trigger] hits(
                from.screen,
                sprite,
                left,
                top,
                r,
                b,
            );
        if r == rows && b == bits {
        } else {
            assert(hits(from.screen, sprite, left, top, r, b));
            assert(hits_before(from.screen, sprite, left, top, rows, bits));
        }
    }
}

/// The pixels of the current row one after the other.
proof fn lemma_row_extends(
    from: Canvas,
    to: Canvas,
    x: int,
    y: int,
    sprite: Seq<u8>,
    rows: int,
    bits: int,
)
    requires
        canvas_wf(from),
        0 <= x < 15,
        0 <= y < 15,
        0 <= rows < 32,
        rows < sprite.len(),
        0 <= bits <= 8,
        drawn_to(from, to, x, y, sprite, rows, 0),
    ensures
        drawn_to(
            from,
            draw_row(to, x, target_row(from, y, rows), sprite[rows], bits),
            x,
            y,
            sprite,
            rows,
            bits,
        ),
    decreases bits,
{
    if bits > 0 {
        lemma_row_extends(from, to, x, y, sprite, rows, bits - 1);
        let sofar = draw_row(to, x, target_row(from, y, rows), sprite[rows], bits - 1);
        lemma_plot_extends(from, sofar, x, y, sprite, rows, bits - 1);
    }
}

/// A finished row is the start of the next.
proof fn lemma_row_done(from: Canvas, to: Canvas, x: int, y: int, sprite: Seq<u8>, rows: int)
    requires
        0 <= rows,
        drawn_to(from, to, x, y, sprite, rows, 8),
    ensures
        drawn_to(from, to, x, y, sprite, rows + 1, 0),
{
    let left = from.v[x] as int;
    let top = from.v[y] as int;
    assert forall|px: int, py: int| 0 <= px < 64 && 0 <= py < 32 implies #[trigger] to.screen[px][py]
        == (from.screen[px][py] != {
        let b = (px - left) % 64;
        let r = (py - top) % 32;
        b < 8 && (r < rows + 1 || (r == rows + 1 && b < 0)) && sprite_bit(sprite[r], b)
    }) by {
        assert(to.screen[px][py] == (from.screen[px][py] != {
            let b = (px - left) % 64;
            let r = (py - top) % 32;
            b < 8 && (r < rows || (r == rows && b < 8)) && sprite_bit(sprite[r], b)
        }));
    }
    if hits_before(from.screen, sprite, left, top, rows, 8) {
        let (r, b) = choose|r: int, b: int|
            0 <= r <= rows && 0 <= b < 8 && (r < rows || b < 8) && #[trigger] hits(
                from.screen,
                sprite,
                left,
                top,
                r,
                b,
            );
        assert(hits(from.screen, sprite, left, top, r, b));
    }
    if hits_before(from.screen, sprite, left, top, rows + 1, 0) {
        let (r, b) = choose|r: int, b: int|
            0 <= r <= rows + 1 && 0 <= b < 8 && (r < rows + 1 || b < 0) && #[trigger] hits(
                from.screen,
                sprite,
                left,
                top,
                r,
                b,
            );
        assert(hits(from.screen, sprite, left, top, r, b));
    }
}

/// The rows one after the other.
proof fn lemma_rows_extend(from: Canvas, x: int, y: int, sprite: Seq<u8>, rows: int)
    requires
        canvas_wf(from),
        0 <= x < 15,
        0 <= y < 15,
        0 <= rows <= 32,
        rows <= sprite.len(),
    ensures
        drawn_to(from, draw_rows(from, x, y, sprite, rows), x, y, sprite, rows, 0),
    decreases rows,
{
    let left = from.v[x] as int;
    let top = from.v[y] as int;
    if rows <= 0 {
        assert(!hits_before(from.screen, sprite, left, top, 0, 0));
    } else {
        lemma_rows_extend(from, x, y, sprite, rows - 1);
        let above = draw_rows(from, x, y, sprite, rows - 1);
        assert(target_row(above, y, rows - 1) == target_row(from, y, rows - 1));
        lemma_row_extends(from, above, x, y, sprite, rows - 1, 8);
        lemma_row_done(
            from,
            draw_row(above, x, target_row(from, y, rows - 1), sprite[rows - 1], 8),
            x,
            y,
            sprite,
            rows - 1,
        );
    }
}

/// The closed form of drawing a sprite that is positioned by registers
/// other than the flag register. With `left` and `top` the values of
/// those registers, each display pixel is flipped exactly where the
/// sprite, wrapped around the edges, has a set pixel on it; the flag
/// becomes 1 if a set sprite pixel lands on a display pixel that was set,
/// and 0 if none does; no other register changes.
pub proof fn lemma_draw_closed_form(v: Seq<u8>, screen: Seq<Seq<bool>>, x: int, y: int, sprite: Seq<u8>)
    requires
        v.len() == 16,
        screen.len() == 64,
        forall|px: int| 0 <= px < 64 ==> (#[trigger] screen[px]).len() == 32,
        0 <= x < 15,
        0 <= y < 15,
        sprite.len() <= 32,
    ensures
        ({
            let c = draw(v, screen, x, y, sprite);
            let left = v[x] as int;
            let top = v[y] as int;
            &&& canvas_wf(c)
            &&& c.v == v.update(0xF, if collides(screen, sprite, left, top) { 1u8 } else { 0u8 })
            &&& forall|px: int, py: int|
                0 <= px < 64 && 0 <= py < 32 ==> #[trigger] c.screen[px][py] == (screen[px][py]
                    != covers(sprite, left, top, px, py))
        }),
{
    let from = Canvas { v: v.update(0xF, 0u8), screen };
    let rows = sprite.len() as int;
    let c = draw(v, screen, x, y, sprite);
    let left = v[x] as int;
    let top = v[y] as int;
    lemma_rows_extend(from, x, y, sprite, rows);
    assert forall|px: int, py: int| 0 <= px < 64 && 0 <= py < 32 implies #[trigger] c.screen[px][py]
        == (screen[px][py] != covers(sprite, left, top, px, py)) by {
        assert(c.screen[px][py] == (from.screen[px][py] != {
            let b = (px - left) % 64;
            let r = (py - top) % 32;
            b < 8 && (r < rows || (r == rows && b < 0)) && sprite_bit(sprite[r], b)
        }));
    }
    if hits_before(screen, sprite, left, top, rows, 0) {
        let (r, b) = choose|r: int, b: int|
            0 <= r <= rows && 0 <= b < 8 && (r < rows || b < 0) && #[trigger] hits(
                screen,
                sprite,
                left,
                top,
                r,
                b,
            );
        assert(hits(screen, sprite, left, top, r, b));
    }
    if collides(screen, sprite, left, top) {
        let (r, b) = choose|r: int, b: int|
            0 <= r < sprite.len() && 0 <= b < 8 && #[trigger] hits(screen, sprite, left, top, r, b);
        assert(hits(screen, sprite, left, top, r, b));
    }
    assert(c.v =~= v.update(0xF, if collides(screen, sprite, left, top) { 1u8 } else { 0u8 }));
}

} // verus!
