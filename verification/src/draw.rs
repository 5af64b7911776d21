//! Sprites: where their pixels land on the bitmap, what drawing one does to
//! the machine, and what a renderer has to paint for the bitmap.

use vstd::prelude::*;

use crate::cpu::{Cpu, Machine};
use crate::display::{cols, indices, is_lit, lit_indices, pixel_count, rows};
use crate::error::EmuError;
use crate::quirk::Quirks;
use crate::semantics::{done, fault, lemma_opcode_fields, op_n, Outcome};

verus! {

/// How a sprite is put on the bitmap.
pub struct Placement {
    /// Whether pixels that pass an edge come back at the opposite edge;
    /// else they are dropped.
    pub wrap: bool,
    /// The column of the sprite's left edge.
    pub x0: int,
    /// The row of the sprite's top edge.
    pub y0: int,
    /// The sprite's width in pixels: 8, or 16 for the large sprite.
    pub width: int,
    /// The sprite's height in rows.
    pub height: int,
}

/// Whether bit `col` of `byte` is set, bit 0 being the leftmost.
pub open spec fn bit_set(byte: u8, col: u8) -> bool {
    byte & (0x80u8 >> col) != 0
}

/// Where, counted from the sprite's first byte, the byte lies that holds
/// pixel `col` of row `row`: a sprite of width 8 has one byte to the row, one
/// of width 16 has two.
pub open spec fn sprite_offset(width: int, row: int, col: int) -> int {
    if width == 16 {
        2 * row + col / 8
    } else {
        row
    }
}

/// Whether pixel `col` of row `row` is set in the sprite that memory holds
/// from address `base` on.
pub open spec fn sprite_bit(memory: Seq<u8>, base: int, width: int, row: int, col: int) -> bool {
    bit_set(memory[base + sprite_offset(width, row, col)], (col % 8) as u8)
}

/// Whether the sprite pixel `row`, `col` falls on the screen: always where
/// sprites wrap, else where it does not pass the right or the bottom edge.
pub open spec fn on_screen(hires: bool, p: Placement, row: int, col: int) -> bool {
    p.wrap || (p.y0 + row < rows(hires) && p.x0 + col < cols(hires))
}

/// The bitmap index on which the sprite pixel `row`, `col` lands, where it
/// falls on the screen.
pub open spec fn sprite_target(hires: bool, p: Placement, row: int, col: int) -> int {
    ((p.y0 + row) % rows(hires)) * cols(hires) + (p.x0 + col) % cols(hires)
}

/// The row and column of the one sprite pixel that can land on bitmap index
/// `k`. The pair lies outside the sprite where none does.
pub open spec fn sprite_source(hires: bool, p: Placement, k: int) -> (int, int) {
    let r = k / cols(hires);
    let c = k % cols(hires);
    if p.wrap {
        ((r - p.y0) % rows(hires), (c - p.x0) % cols(hires))
    } else {
        (r - p.y0, c - p.x0)
    }
}

/// Whether the sprite at the index register has a set pixel over bitmap
/// index `k`.
pub open spec fn sprite_lit(m: Machine, p: Placement, k: int) -> bool {
    let (row, col) = sprite_source(m.hires, p, k);
    0 <= row < p.height && 0 <= col < p.width && sprite_bit(
        m.memory,
        m.i as int,
        p.width,
        row,
        col,
    )
}

/// Whether drawing the sprite turns a pixel off.
pub open spec fn sprite_collides(m: Machine, p: Placement) -> bool {
    exists|k: int| 0 <= k < m.display.len() && m.display[k] && #[trigger] sprite_lit(m, p, k)
}

/// The machine after the sprite was drawn: every pixel under a set sprite
/// pixel is flipped, and VF is set to 1 where that turned a pixel off.
pub open spec fn stamped(m: Machine, p: Placement) -> Machine {
    Machine {
        display: Seq::new(m.display.len(), |k: int| m.display[k] != sprite_lit(m, p, k)),
        v: if sprite_collides(m, p) {
            m.v.update(15, 1u8)
        } else {
            m.v
        },
        ..m
    }
}

/// How many rows of a sprite of width 8 are read from memory: all where
/// sprites wrap, else those that have a pixel on the screen.
pub open spec fn rows_read(hires: bool, p: Placement) -> int {
    if p.wrap {
        p.height
    } else if p.x0 < cols(hires) && p.y0 < rows(hires) {
        if p.height <= rows(hires) - p.y0 {
            p.height
        } else {
            rows(hires) - p.y0
        }
    } else {
        0
    }
}

/// Drawing the sprite of width 8 and `height` rows at the index register,
/// with its left top corner at column `x0`, row `y0`. A row that is read and
/// lies past the end of memory is a fault that changes nothing.
pub open spec fn sprite_drawn(m: Machine, wrap: bool, x0: int, y0: int, height: int) -> Outcome {
    let p = Placement { wrap, x0, y0, width: 8, height };
    if rows_read(m.hires, p) > 0 && m.i + rows_read(m.hires, p) > 4096 {
        fault(m, EmuError::IndexOutOfRange)
    } else {
        done(stamped(m, p))
    }
}

/// Drawing the sprite of 16 by 16 pixels at the index register, with its
/// left top corner at column `x0`, row `y0`. All of its 32 bytes are read:
/// one that lies past the end of memory is a fault that changes nothing.
pub open spec fn super_sprite_drawn(m: Machine, wrap: bool, x0: int, y0: int) -> Outcome {
    if m.i + 32 > 4096 {
        fault(m, EmuError::IndexOutOfRange)
    } else {
        done(stamped(m, Placement { wrap, x0, y0, width: 16, height: 16 }))
    }
}

/// A sprite that the drawing loop can handle: 8 or 16 wide, at most 16 high,
/// at a column and row that are not negative.
spec fn drawable(p: Placement) -> bool {
    &&& p.width == 8 || p.width == 16
    &&& 0 <= p.height <= 16
    &&& 0 <= p.x0
    &&& 0 <= p.y0
}

/// Whether every byte of the sprite that holds a pixel on the screen lies in
/// memory.
spec fn readable(m: Machine, p: Placement) -> bool {
    forall|row: int, col: int|
        0 <= row < p.height && 0 <= col < p.width && #[trigger] on_screen(m.hires, p, row, col)
            ==> m.i + sprite_offset(p.width, row, col) < 4096
}

/// Whether the sprite has a set pixel over `k` that comes before pixel `col`
/// of row `row` in drawing order.
spec fn lit_before(m: Machine, p: Placement, row: int, col: int, k: int) -> bool {
    let (sr, sc) = sprite_source(m.hires, p, k);
    sprite_lit(m, p, k) && (sr < row || (sr == row && sc < col))
}

/// Whether a pixel drawn before pixel `col` of row `row` turned a pixel off.
spec fn collides_before(m: Machine, p: Placement, row: int, col: int) -> bool {
    exists|k: int|
        0 <= k < m.display.len() && m.display[k] && #[trigger] lit_before(m, p, row, col, k)
}

/// The machine when the sprite is drawn up to, and without, pixel `col` of
/// row `row`.
spec fn partly_stamped(m: Machine, p: Placement, row: int, col: int) -> Machine {
    Machine {
        display: Seq::new(m.display.len(), |k: int| m.display[k] != lit_before(m, p, row, col, k)),
        v: if collides_before(m, p, row, col) {
            m.v.update(15, 1u8)
        } else {
            m.v
        },
        ..m
    }
}

/// On an axis of `size` places, going `offset` places on from `origin` ends
/// at `pos` exactly when going back from `pos` by `origin` places ends at
/// `offset`.
proof fn lemma_wrap_axis(size: int, origin: int, offset: int, pos: int)
    requires
        size == 32 || size == 64 || size == 128,
        0 <= pos < size,
        0 <= offset < size,
    ensures
        (pos - origin) % size == offset <==> pos == (origin + offset) % size,
{
}

/// A sprite pixel lands on `k` exactly when it falls on the screen and `k`
/// is its target.
proof fn lemma_source_of_target(hires: bool, p: Placement, row: int, col: int, k: int)
    requires
        0 <= k < pixel_count(hires),
        0 <= row < 16,
        0 <= col < 16,
        0 <= p.x0,
        0 <= p.y0,
    ensures
        sprite_source(hires, p, k) == (row, col) <==> (on_screen(hires, p, row, col) && k
            == sprite_target(hires, p, row, col)),
{
    let r = k / cols(hires);
    let c = k % cols(hires);
    assert(k == r * cols(hires) + c && 0 <= r < rows(hires) && 0 <= c < cols(hires));
    lemma_wrap_axis(rows(hires), p.y0, row, r);
    lemma_wrap_axis(cols(hires), p.x0, col, c);
    let tr = (p.y0 + row) % rows(hires);
    let tc = (p.x0 + col) % cols(hires);
    assert(0 <= tr < rows(hires) && 0 <= tc < cols(hires));
    assert(k == tr * cols(hires) + tc <==> (r == tr && c == tc));
}

/// Two points of the drawing order before which the same lit pixels of the
/// bitmap were drawn over have the same collisions before them.
proof fn lemma_same_collisions(
    m: Machine,
    p: Placement,
    row_a: int,
    col_a: int,
    row_b: int,
    col_b: int,
)
    requires
        forall|k: int|
            0 <= k < m.display.len() && m.display[k] ==> lit_before(m, p, row_a, col_a, k)
                == lit_before(m, p, row_b, col_b, k),
    ensures
        collides_before(m, p, row_a, col_a) == collides_before(m, p, row_b, col_b),
{
    if collides_before(m, p, row_a, col_a) {
        let k = choose|k: int|
            0 <= k < m.display.len() && m.display[k] && #[trigger] lit_before(
                m,
                p,
                row_a,
                col_a,
                k,
            );
        assert(lit_before(m, p, row_b, col_b, k));
    }
    if collides_before(m, p, row_b, col_b) {
        let k = choose|k: int|
            0 <= k < m.display.len() && m.display[k] && #[trigger] lit_before(
                m,
                p,
                row_b,
                col_b,
                k,
            );
        assert(lit_before(m, p, row_a, col_a, k));
    }
}

/// Nothing is drawn before the first pixel.
proof fn lemma_stamp_start(m: Machine, p: Placement)
    ensures
        partly_stamped(m, p, 0, 0) == m,
{
    assert(partly_stamped(m, p, 0, 0) =~= m);
}

/// What is drawn before the end of a row is what is drawn before the start
/// of the next.
proof fn lemma_stamp_next_row(m: Machine, p: Placement, row: int)
    ensures
        partly_stamped(m, p, row, p.width) == partly_stamped(m, p, row + 1, 0),
{
    let a = partly_stamped(m, p, row, p.width);
    let b = partly_stamped(m, p, row + 1, 0);
    assert forall|k: int|
        lit_before(m, p, row, p.width, k) == lit_before(m, p, row + 1, 0, k) by {}
    assert(a.display =~= b.display);
    lemma_same_collisions(m, p, row, p.width, row + 1, 0);
}

/// What is drawn before the end of the last row is the whole sprite.
proof fn lemma_stamp_end(m: Machine, p: Placement)
    ensures
        partly_stamped(m, p, p.height, 0) == stamped(m, p),
{
    let a = partly_stamped(m, p, p.height, 0);
    let b = stamped(m, p);
    assert forall|k: int| lit_before(m, p, p.height, 0, k) == sprite_lit(m, p, k) by {}
    assert(a.display =~= b.display);
    assert(collides_before(m, p, p.height, 0) == sprite_collides(m, p));
}

/// What drawing one more pixel adds to what was drawn before it: where the
/// pixel falls on the screen and is set, its target is flipped and counts as
/// a collision if it was on; else nothing.
proof fn lemma_stamp_pixel(m: Machine, p: Placement, row: int, col: int)
    requires
        m.wf(),
        drawable(p),
        0 <= row < p.height,
        0 <= col < p.width,
    ensures
        ({
            let cur = partly_stamped(m, p, row, col);
            let next = partly_stamped(m, p, row, col + 1);
            let t = sprite_target(m.hires, p, row, col);
            if on_screen(m.hires, p, row, col) && sprite_bit(
                m.memory,
                m.i as int,
                p.width,
                row,
                col,
            ) {
                &&& 0 <= t < pixel_count(m.hires)
                &&& cur.display[t] == m.display[t]
                &&& next == Machine {
                    display: cur.display.update(t, !cur.display[t]),
                    v: if m.display[t] {
                        cur.v.update(15, 1u8)
                    } else {
                        cur.v
                    },
                    ..cur
                }
            } else {
                next == cur
            }
        }),
{
    let cur = partly_stamped(m, p, row, col);
    let next = partly_stamped(m, p, row, col + 1);
    let t = sprite_target(m.hires, p, row, col);
    let drawn = on_screen(m.hires, p, row, col) && sprite_bit(
        m.memory,
        m.i as int,
        p.width,
        row,
        col,
    );
    let tr = (p.y0 + row) % rows(m.hires);
    let tc = (p.x0 + col) % cols(m.hires);
    assert(0 <= tr < rows(m.hires) && 0 <= tc < cols(m.hires));
    assert(0 <= t < pixel_count(m.hires));
    assert forall|k: int| 0 <= k < m.display.len() implies lit_before(m, p, row, col + 1, k) == (
    lit_before(m, p, row, col, k) || (drawn && k == t)) by {
        lemma_source_of_target(m.hires, p, row, col, k);
    }
    if drawn {
        lemma_source_of_target(m.hires, p, row, col, t);
        assert(!lit_before(m, p, row, col, t));
    }
    if drawn {
        assert(next.display =~= cur.display.update(t, !cur.display[t]));
        if m.display[t] {
            assert(lit_before(m, p, row, col + 1, t));
            assert(next.v =~= cur.v.update(15, 1u8));
        } else {
            lemma_same_collisions(m, p, row, col, row, col + 1);
        }
    } else {
        assert(next.display =~= cur.display);
        lemma_same_collisions(m, p, row, col, row, col + 1);
    }
}

/// The placement that the drawing loop is called with.
spec fn placed(wrap: bool, x: u16, y: u16, wide: bool, height: usize) -> Placement {
    Placement {
        wrap,
        x0: x as int,
        y0: y as int,
        width: if wide { 16 } else { 8 },
        height: height as int,
    }
}

/// Draws the sprite at the index register, 8 or 16 pixels wide, pixel by
/// pixel in reading order.
fn stamp(cpu: &mut Cpu, wrap: bool, x: u16, y: u16, wide: bool, height: usize)
    requires
        old(cpu).wf(),
        height <= 16,
        readable(old(cpu)@, placed(wrap, x, y, wide, height)),
    ensures
        final(cpu)@ == stamped(old(cpu)@, placed(wrap, x, y, wide, height)),
{
    let ghost p = placed(wrap, x, y, wide, height);
    let cols: usize = if cpu.hires { 128 } else { 64 };
    let rows: usize = if cpu.hires { 64 } else { 32 };
    let width: usize = if wide { 16 } else { 8 };
    let ghost before = cpu@;
    proof {
        lemma_stamp_start(before, p);
    }
    let mut row: usize = 0;
    while row < height
        invariant
            row <= height <= 16,
            width == p.width,
            p == placed(wrap, x, y, wide, height),
            cols == crate::display::cols(before.hires),
            rows == crate::display::rows(before.hires),
            before.wf(),
            readable(before, p),
            cpu@ == partly_stamped(before, p, row as int, 0),
        decreases height - row,
    {
        let mut col: usize = 0;
        while col < width
            invariant
                row < height <= 16,
                col <= width,
                width == p.width,
                p == placed(wrap, x, y, wide, height),
                cols == crate::display::cols(before.hires),
                rows == crate::display::rows(before.hires),
                before.wf(),
                readable(before, p),
                cpu@ == partly_stamped(before, p, row as int, col as int),
            decreases width - col,
        {
            proof {
                lemma_stamp_pixel(before, p, row as int, col as int);
            }
            if wrap || (y as usize + row < rows && x as usize + col < cols) {
                assert(on_screen(before.hires, p, row as int, col as int));
                let offset = if wide { 2 * row + col / 8 } else { row };
                let byte = cpu.memory[cpu.i as usize + offset];
                if byte & (0x80u8 >> ((col % 8) as u8)) != 0 {
                    let collided = cpu.toggle_pixel(
                        (y as usize + row) % rows,
                        (x as usize + col) % cols,
                    );
                    if collided {
                        cpu.v[0xF] = 1;
                    }
                }
            }
            col += 1;
        }
        proof {
            lemma_stamp_next_row(before, p, row as int);
        }
        row += 1;
    }
    proof {
        lemma_stamp_end(before, p);
    }
}

/// Draws the sprite of width 8 at the index register at column `x`, row `y`;
/// the low nibble of the current instruction gives its rows. VF is set to 1
/// where a pixel is turned off, and is left as it was where none is.
pub fn draw_sprite(cpu: &mut Cpu, quirks: &Quirks, x: u16, y: u16) -> (r: Result<(), EmuError>)
    requires
        old(cpu).wf(),
    ensures
        (final(cpu)@, r) == sprite_drawn(
            old(cpu)@,
            quirks.wrap,
            x as int,
            y as int,
            op_n(old(cpu).opcode),
        ),
        final(cpu).wf(),
{
    let cols: usize = if cpu.hires { 128 } else { 64 };
    let rows: usize = if cpu.hires { 64 } else { 32 };
    let height = (cpu.opcode & 0x000F) as usize;
    proof {
        lemma_opcode_fields(cpu.opcode);
    }
    let read = if quirks.wrap {
        height
    } else if (x as usize) < cols && (y as usize) < rows {
        if height <= rows - y as usize {
            height
        } else {
            rows - y as usize
        }
    } else {
        0
    };
    if read > 0 && cpu.i as usize + read > 4096 {
        return Err(EmuError::IndexOutOfRange);
    }
    stamp(cpu, quirks.wrap, x, y, false, height);
    Ok(())
}

/// Draws the sprite of 16 by 16 pixels at the index register at column `x`,
/// row `y`. VF is set to 1 where a pixel is turned off, and is left as it was
/// where none is.
pub fn draw_super_sprite(
    cpu: &mut Cpu,
    quirks: &Quirks,
    x: u16,
    y: u16,
) -> (r: Result<(), EmuError>)
    requires
        old(cpu).wf(),
    ensures
        (final(cpu)@, r) == super_sprite_drawn(old(cpu)@, quirks.wrap, x as int, y as int),
        final(cpu).wf(),
{
    if cpu.i as usize + 32 > 4096 {
        return Err(EmuError::IndexOutOfRange);
    }
    stamp(cpu, quirks.wrap, x, y, true, 16);
    Ok(())
}

/// A filled square of the window: the left and top edge and the side, in
/// window pixels.
#[derive(Clone, Copy, Debug, PartialEq, Eq, Structural)]
pub struct Square {
    pub x: i32,
    pub y: i32,
    pub side: u32,
}

/// The side of the window square that shows one pixel of the bitmap: the
/// window is 1024 by 512 in either resolution.
pub open spec fn pixel_side(hires: bool) -> int {
    if hires { 8 } else { 16 }
}

/// The window square that shows the pixel with a given bitmap index.
pub open spec fn square_at(hires: bool) -> spec_fn(usize) -> Square {
    |k: usize|
        Square {
            x: ((k as int % cols(hires)) * pixel_side(hires)) as i32,
            y: ((k as int / cols(hires)) * pixel_side(hires)) as i32,
            side: pixel_side(hires) as u32,
        }
}

/// What a renderer paints on a cleared window to show the bitmap: one square
/// for each pixel that is on, in the order of the bitmap.
pub fn squares(cpu: &Cpu) -> (r: Vec<Square>)
    requires
        cpu.wf(),
    ensures
        r@ == lit_indices(cpu@.display).map_values(square_at(cpu@.hires)),
{
    let cols: usize = if cpu.hires { 128 } else { 64 };
    let side: usize = if cpu.hires { 8 } else { 16 };
    let len = cpu.display_buffer.len();
    let mut r: Vec<Square> = Vec::new();
    proof {
        reveal(Seq::filter);
        assert(indices(0).filter(is_lit(cpu@.display)) == Seq::<usize>::empty());
        assert(Seq::<usize>::empty().map_values(square_at(cpu@.hires)) == Seq::<Square>::empty());
    }
    for k in 0..len
        invariant
            cpu.wf(),
            len == cpu@.display.len(),
            cols == crate::display::cols(cpu@.hires),
            side == pixel_side(cpu@.hires),
            r@ == indices(k as nat).filter(is_lit(cpu@.display)).map_values(square_at(cpu@.hires)),
    {
        proof {
            reveal(Seq::filter);
            assert(indices((k + 1) as nat).drop_last() == indices(k as nat));
        }
        if cpu.display_buffer[k] {
            let ghost lit = indices(k as nat).filter(is_lit(cpu@.display));
            assert(lit.push(k).map_values(square_at(cpu@.hires)) == lit.map_values(
                square_at(cpu@.hires),
            ).push(square_at(cpu@.hires)(k)));
            r.push(
                Square {
                    x: ((k % cols) * side) as i32,
                    y: ((k / cols) * side) as i32,
                    side: side as u32,
                },
            );
        }
    }
    r
}

} // verus!
