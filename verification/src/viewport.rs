//! The part of the plane that a window shows: from a point of the window to
//! the cell that is drawn there and back, and how dragging and zooming move
//! that part. Sums, differences and products wrap round at the edge of what
//! an `i32` holds.

use crate::cells::Cell;
use vstd::arithmetic::div_mod::lemma_fundamental_div_mod_converse;
use vstd::prelude::*;
use vstd::wrapping::i32_specs::{wrapping_add, wrapping_mul, wrapping_sub};

verus! {

/// The signed number that has the 32 bits of `v`.
pub open spec fn signed(v: u32) -> int {
    if v <= i32::MAX {
        v as int
    } else {
        v - 0x1_0000_0000
    }
}

/// The unsigned number that has the 32 bits of `v`.
pub open spec fn unsigned(v: i32) -> u32 {
    if v >= 0 {
        v as u32
    } else {
        (v + 0x1_0000_0000) as u32
    }
}

/// The quotient of `a` by `b`, rounded toward zero. In ghost code `/` leaves
/// a remainder that is not negative, so it rounds toward zero where `a` is
/// not negative, whatever the sign of `b`.
pub open spec fn quotient(a: int, b: int) -> int
    recommends
        b != 0,
{
    if a >= 0 {
        a / b
    } else {
        -((-a) / b)
    }
}

/// Whether a coordinate of the window can be divided by the size of a cell:
/// the size is not 0, and the quotient is not that of the least `i32` by -1,
/// which no `i32` holds.
pub open spec fn divisible(mouse: u32, pixel_size: u32) -> bool {
    pixel_size != 0 && !(mouse == 0x8000_0000 && pixel_size == u32::MAX)
}

/// The column, or row, of the cell drawn at `mouse`, where cells are
/// `pixel_size` wide and the cell `start` is drawn at 0.
pub open spec fn grid_coord(mouse: u32, pixel_size: u32, start: i32) -> i32 {
    wrapping_add(start, quotient(signed(mouse), signed(pixel_size)) as i32)
}

/// The `i32` with the bits of `v`.
fn to_signed(v: u32) -> (s: i32)
    ensures
        s == signed(v),
{
    assert(v <= 0x7fff_ffffu32 ==> (v as i32) == v) by (bit_vector);
    assert(v > 0x7fff_ffffu32 ==> (v as i32) == v - 0x1_0000_0000) by (bit_vector);
    #[verifier::truncate]
    (v as i32)
}

/// The `u32` with the bits of `v`.
pub fn to_unsigned(v: i32) -> (u: u32)
    ensures
        u == unsigned(v),
        signed(u) == v,
{
    assert(v >= 0i32 ==> (v as u32) == v) by (bit_vector);
    assert(v < 0i32 ==> (v as u32) == v + 0x1_0000_0000) by (bit_vector);
    #[verifier::truncate]
    (v as u32)
}

/// A quotient is no further from zero than what was divided, and nearer
/// where the divisor is neither 1 nor -1.
proof fn lemma_quotient_bounds(a: int, b: int)
    requires
        b != 0,
    ensures
        a >= 0 ==> -a <= quotient(a, b) <= a,
        a < 0 ==> a <= quotient(a, b) <= -a,
        a < 0 && b != -1 ==> quotient(a, b) < -a,
{
    assert(forall|x: int, d: int| x >= 0 && d != 0 ==> -x <= #[trigger] (x / d) <= x)
        by (nonlinear_arith);
    assert(forall|x: int, d: int| x > 0 && d != 0 && d != -1 ==> -x < #[trigger] (x / d))
        by (nonlinear_arith);
}

/// Divides two signed numbers as the machine does, toward zero.
fn divide(a: i32, b: i32) -> (q: i32)
    requires
        b != 0,
        !(a == i32::MIN && b == -1),
    ensures
        q == quotient(a as int, b as int),
{
    proof {
        lemma_quotient_bounds(a as int, b as int);
    }
    a / b
}

/// The cell that is drawn at the point `mouse` of the window, where a cell
/// takes `pixel_size` pixels and the cell `start` is drawn in the window's
/// corner. All three are read as signed numbers.
pub fn mouse_to_grid_coords(mouse: (u32, u32), pixel_size: (u32, u32), start: Cell) -> (cell: Cell)
    requires
        divisible(mouse.0, pixel_size.0),
        divisible(mouse.1, pixel_size.1),
    ensures
        cell.0 == grid_coord(mouse.0, pixel_size.0, start.0),
        cell.1 == grid_coord(mouse.1, pixel_size.1, start.1),
{
    (
        start.0.wrapping_add(divide(to_signed(mouse.0), to_signed(pixel_size.0))),
        start.1.wrapping_add(divide(to_signed(mouse.1), to_signed(pixel_size.1))),
    )
}

/// Where the window's corner lies after the plane was dragged along with
/// the pointer: the cell `from` was under the pointer when the button went
/// down, the cell `to` is under it now.
pub open spec fn panned(start: i32, from: i32, to: i32) -> i32 {
    wrapping_add(start, wrapping_sub(from, to))
}

/// Moves the window's corner by what lies between the cells `from` and `to`.
pub fn pan(start: Cell, from: Cell, to: Cell) -> (moved: Cell)
    ensures
        moved.0 == panned(start.0, from.0, to.0),
        moved.1 == panned(start.1, from.1, to.1),
{
    (start.0.wrapping_add(from.0.wrapping_sub(to.0)), start.1.wrapping_add(from.1.wrapping_sub(to.1)))
}

/// The size of a cell after the wheel was turned by `y`: the sum of the two
/// where that is more than 1, else 1.
pub open spec fn zoomed_size(pixel_size: u32, y: i32) -> u32 {
    let sum = wrapping_add(signed(pixel_size) as i32, y);
    if sum > 1 {
        sum as u32
    } else {
        1
    }
}

/// Where the window's corner lies after the size of a cell went from
/// `old_size` to `new_size`: it moves by half the difference of the numbers
/// of cells that fit into `res` pixels, so that the middle stays in place.
pub open spec fn zoomed_start(start: i32, res: u32, old_size: u32, new_size: u32) -> i32
    recommends
        old_size != 0,
        new_size != 0,
{
    wrapping_add(
        start,
        quotient(
            wrapping_sub(signed(res / old_size) as i32, signed(res / new_size) as i32) as int,
            2,
        ) as i32,
    )
}

/// The size of a cell after the wheel was turned by `y`.
pub fn zoom_size(pixel_size: u32, y: i32) -> (size: u32)
    ensures
        size == zoomed_size(pixel_size, y),
        1 <= size <= i32::MAX,
{
    let sum = to_signed(pixel_size).wrapping_add(y);
    if sum > 1 {
        sum as u32
    } else {
        1
    }
}

/// The window's corner after the size of a cell went from `old_size` to
/// `new_size`, along one axis of a window of `res` pixels.
pub fn zoom_start(start: i32, res: u32, old_size: u32, new_size: u32) -> (moved: i32)
    requires
        old_size != 0,
        new_size != 0,
    ensures
        moved == zoomed_start(start, res, old_size, new_size),
{
    let old_grid_size = to_signed(res / old_size);
    let new_grid_size = to_signed(res / new_size);
    start.wrapping_add(divide(old_grid_size.wrapping_sub(new_grid_size), 2))
}

/// Where on the window a cell is drawn, along one axis: the size of a cell
/// times the cell's distance from the window's corner.
pub open spec fn screen_coord(cell: i32, start: i32, pixel_size: u32) -> i32 {
    wrapping_mul(signed(pixel_size) as i32, wrapping_sub(cell, start))
}

/// The rectangle of the window that shows `cell`: its corner, its width and
/// its height.
pub fn cell_rect(cell: Cell, start: Cell, pixel_size: (u32, u32)) -> (rect: (i32, i32, u32, u32))
    ensures
        rect.0 == screen_coord(cell.0, start.0, pixel_size.0),
        rect.1 == screen_coord(cell.1, start.1, pixel_size.1),
        rect.2 == pixel_size.0,
        rect.3 == pixel_size.1,
{
    (
        to_signed(pixel_size.0).wrapping_mul(cell.0.wrapping_sub(start.0)),
        to_signed(pixel_size.1).wrapping_mul(cell.1.wrapping_sub(start.1)),
        pixel_size.0,
        pixel_size.1,
    )
}

/// A cell is found under every point of the rectangle that shows it: where
/// the rectangle lies right of and below the window's corner and nothing
/// wraps round, the point `k` pixels into it is drawn as that cell.
pub proof fn lemma_cell_under_its_rectangle(cell: i32, start: i32, pixel_size: u32, k: int)
    requires
        1 <= pixel_size <= i32::MAX,
        0 <= k < pixel_size,
        0 <= pixel_size * (cell - start),
        pixel_size * (cell - start) + k <= i32::MAX,
    ensures
        screen_coord(cell, start, pixel_size) == pixel_size * (cell - start),
        grid_coord((screen_coord(cell, start, pixel_size) + k) as u32, pixel_size, start) == cell,
{
    let d = cell - start;
    let p = pixel_size as int;
    assert(0 <= d && d <= p * d) by (nonlinear_arith)
        requires
            1 <= p,
            0 <= p * d,
    ;
    assert(p * d == d * p) by (nonlinear_arith);
    lemma_fundamental_div_mod_converse(p * d + k, p, d, k);
}

/// Where the lines between the cells cross one side of a window that is
/// `size` pixels long: at every multiple of `pixel_size` up to `size`,
/// beginning with 0.
pub fn line_positions(size: u32, pixel_size: u32) -> (lines: Vec<i32>)
    requires
        pixel_size != 0,
    ensures
        lines@.len() == size / pixel_size + 1,
        forall|k: int| 0 <= k < lines@.len() ==> #[trigger] lines@[k] == signed((k * pixel_size) as u32),
{
    let last = size / pixel_size;
    let mut lines: Vec<i32> = Vec::new();
    let mut k: u32 = 0;
    loop
        invariant_except_break
            lines@.len() == k,
            forall|j: int| 0 <= j < k ==> #[trigger] lines@[j] == signed((j * pixel_size) as u32),
        invariant
            last == size / pixel_size,
            pixel_size != 0,
            0 <= k <= last,
        ensures
            k == last,
            lines@.len() == last + 1,
            forall|j: int| 0 <= j <= last ==> #[trigger] lines@[j] == signed((j * pixel_size) as u32),
        decreases last - k,
    {
        assert(k * pixel_size <= size) by (nonlinear_arith)
            requires
                k <= size / pixel_size,
                pixel_size > 0,
        ;
        lines.push(to_signed(k * pixel_size));
        if k == last {
            break ;
        }
        k += 1;
    }
    lines
}

} // verus!
