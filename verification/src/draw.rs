//! The mathematical model of sprite drawing: a sprite is `n` bytes read at
//! the index register, each byte one row of eight pixels, most significant
//! bit leftmost. Every sprite pixel lands on the screen modulo the screen
//! dimensions and is combined with the pixel already there by exclusive-or;
//! a draw collides when any pixel goes from lit to unlit.
//!
//! The model is pointwise: for a screen cell `p` (row-major, `p = row * 64 +
//! col`), [`sprite_pixel`] says whether the sprite covers `p` with a set bit.
//! Because a sprite is at most 8 wide and 15 high, smaller than both screen
//! dimensions, each cell is covered by at most one sprite pixel, and the
//! inverse mapping from a cell to its sprite row and column is a function.

use vstd::prelude::*;

verus! {

/// The sprite row that lands on screen row `j`, for a draw whose origin row
/// is `yb` (already reduced modulo 32): the distance from `yb` to `j`,
/// walking downwards with wraparound.
pub open spec fn row_offset(yb: int, j: int) -> int {
    if j >= yb {
        j - yb
    } else {
        j + 32 - yb
    }
}

/// The sprite column that lands on screen column `i`, for a draw whose
/// origin column is `xb` (already reduced modulo 64).
pub open spec fn col_offset(xb: int, i: int) -> int {
    if i >= xb {
        i - xb
    } else {
        i + 64 - xb
    }
}

/// Bit `c` (0 = leftmost) of sprite row `r`, read from memory at
/// `index + r`; a row outside the address space reads as all clear.
pub open spec fn sprite_bit(mem: Seq<u8>, index: int, r: int, c: int) -> bool {
    &&& 0 <= index + r < 4096
    &&& (mem[index + r] >> ((7 - c) as u8)) & 1 == 1
}

/// Whether the draw with origin `(xb, yb)` and height `n` puts a set sprite
/// bit on screen cell `p`.
pub open spec fn sprite_pixel(mem: Seq<u8>, index: int, xb: int, yb: int, n: int, p: int) -> bool {
    let r = row_offset(yb, p / 64);
    let c = col_offset(xb, p % 64);
    r < n && c < 8 && sprite_bit(mem, index, r, c)
}

/// The screen after the draw: each cell is the exclusive-or of the old cell
/// and the sprite bit that lands on it.
pub open spec fn screen_after_draw(
    screen: Seq<bool>,
    mem: Seq<u8>,
    index: int,
    xb: int,
    yb: int,
    n: int,
) -> Seq<bool> {
    Seq::new(2048, |p: int| screen[p] != sprite_pixel(mem, index, xb, yb, n, p))
}

/// Whether the draw collides: some lit cell receives a set sprite bit and
/// so is turned off.
pub open spec fn draw_collision(
    screen: Seq<bool>,
    mem: Seq<u8>,
    index: int,
    xb: int,
    yb: int,
    n: int,
) -> bool {
    exists|p: int| 0 <= p < 2048 && screen[p] && sprite_pixel(mem, index, xb, yb, n, p)
}

/// Whether the sprite position that lands on cell `p` has already been
/// processed by a draw that walks rows outward and columns within a row,
/// and stands at row `rd`, column `cd`.
pub(crate) open spec fn hit_before(xb: int, yb: int, rd: int, cd: int, p: int) -> bool {
    let r = row_offset(yb, p / 64);
    let c = col_offset(xb, p % 64);
    r < rd || (r == rd && c < cd)
}

/// [`sprite_pixel`] restricted to the part of the sprite already processed.
pub(crate) open spec fn partial_pixel(
    mem: Seq<u8>,
    index: int,
    xb: int,
    yb: int,
    n: int,
    rd: int,
    cd: int,
    p: int,
) -> bool {
    sprite_pixel(mem, index, xb, yb, n, p) && hit_before(xb, yb, rd, cd, p)
}

/// [`draw_collision`] restricted to the part of the sprite already
/// processed; `screen` is the screen as it stood before the draw began.
pub(crate) open spec fn partial_collision(
    screen: Seq<bool>,
    mem: Seq<u8>,
    index: int,
    xb: int,
    yb: int,
    n: int,
    rd: int,
    cd: int,
) -> bool {
    exists|p: int|
        0 <= p < 2048 && screen[p] && partial_pixel(mem, index, xb, yb, n, rd, cd, p)
}

/// Row-major cell arithmetic: a (row, column) pair and its cell number
/// determine each other.
pub(crate) proof fn lemma_cell(j: int, i: int)
    requires
        0 <= j < 32,
        0 <= i < 64,
    ensures
        0 <= j * 64 + i < 2048,
        (j * 64 + i) / 64 == j,
        (j * 64 + i) % 64 == i,
{
    assert((j * 64 + i) / 64 == j && (j * 64 + i) % 64 == i) by (nonlinear_arith)
        requires
            0 <= j < 32,
            0 <= i < 64,
    ;
}

/// Reduction modulo `m` of a value below `2 * m` subtracts `m` at most once.
pub(crate) proof fn lemma_small_mod(a: int, m: int)
    requires
        0 <= a < 2 * m,
        0 < m,
    ensures
        a % m == (if a < m {
            a
        } else {
            a - m
        }),
{
    assert(a % m == (if a < m {
        a
    } else {
        a - m
    })) by (nonlinear_arith)
        requires
            0 <= a < 2 * m,
            0 < m,
    ;
}

/// Drawing the same sprite at the same place twice restores the screen
/// exactly, because exclusive-or is an involution; and the second draw
/// collides exactly when the first draw lit some cell, since every cell the
/// first draw turned on receives the same sprite bit again.
pub proof fn lemma_draw_twice(
    screen: Seq<bool>,
    mem: Seq<u8>,
    index: int,
    xb: int,
    yb: int,
    n: int,
)
    requires
        screen.len() == 2048,
    ensures
        screen_after_draw(screen_after_draw(screen, mem, index, xb, yb, n), mem, index, xb, yb, n)
            == screen,
        draw_collision(screen_after_draw(screen, mem, index, xb, yb, n), mem, index, xb, yb, n)
            == (exists|p: int|
                0 <= p < 2048 && !screen[p] && sprite_pixel(mem, index, xb, yb, n, p)),
{
    let once = screen_after_draw(screen, mem, index, xb, yb, n);
    let twice = screen_after_draw(once, mem, index, xb, yb, n);
    assert(twice =~= screen);
    if draw_collision(once, mem, index, xb, yb, n) {
        let p = choose|p: int|
            0 <= p < 2048 && once[p] && sprite_pixel(mem, index, xb, yb, n, p);
        assert(0 <= p < 2048 && !screen[p] && sprite_pixel(mem, index, xb, yb, n, p));
    }
    if exists|p: int| 0 <= p < 2048 && !screen[p] && sprite_pixel(mem, index, xb, yb, n, p) {
        let p = choose|p: int|
            0 <= p < 2048 && !screen[p] && sprite_pixel(mem, index, xb, yb, n, p);
        assert(once[p] && sprite_pixel(mem, index, xb, yb, n, p));
    }
}

} // verus!
