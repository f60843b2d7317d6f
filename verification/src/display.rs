//! The 64x32 monochrome framebuffer.
//!
//! A sprite is a sequence of bytes, each bit one horizontal pixel, most
//! significant bit leftmost. Drawing XOR-composes the sprite onto the grid
//! with horizontal and vertical wraparound and reports a collision exactly
//! when some pixel flips from on to off.

use vstd::prelude::*;

use vstd::arithmetic::div_mod::{lemma_fundamental_div_mod, lemma_mod_bound};

verus! {

/// Width of the framebuffer in pixels.
pub const DISPLAY_WIDTH: usize = 64;

/// Height of the framebuffer in pixels.
pub const DISPLAY_HEIGHT: usize = 32;

/// Number of pixels of the framebuffer; pixel `(col, row)` sits at index
/// `row * 64 + col`.
pub const DISPLAY_PIXELS: usize = 2048;

/// Whether bit `b` of `byte`, counted from the most significant bit, is set.
pub open spec fn bit_of(byte: u8, b: int) -> bool {
    (byte >> (7 - b) as u8) & 1 == 1
}

/// Whether the first `nbits` bits of sprite row `byte`, drawn at column `x`
/// of pixel row `py`, cover the pixel at grid index `idx`.
pub open spec fn row_on(x: int, py: int, byte: u8, nbits: int, idx: int) -> bool {
    exists|b: int| 0 <= b < nbits && #[trigger] bit_of(byte, b) && idx == py * 64 + (x + b) % 64
}

/// Whether the first `nrows` rows of sprite `s`, drawn at `(x, y)` with
/// wraparound, cover the pixel at grid index `idx`.
pub open spec fn sprite_on(x: int, y: int, s: Seq<u8>, nrows: int, idx: int) -> bool {
    exists|r: int| 0 <= r < nrows && #[trigger] row_on(x, (y + r) % 32, s[r], 8, idx)
}

/// The grid after XOR-drawing sprite `s` at `(x, y)`.
pub open spec fn drawn(g: Seq<bool>, x: int, y: int, s: Seq<u8>) -> Seq<bool> {
    Seq::new(g.len(), |idx: int| g[idx] != sprite_on(x, y, s, s.len() as int, idx))
}

/// Whether the first `nrows` rows of the drawing flip some pixel of `g`
/// from on to off.
pub open spec fn collides_upto(g: Seq<bool>, x: int, y: int, s: Seq<u8>, nrows: int) -> bool {
    exists|idx: int| 0 <= idx < g.len() && #[trigger] g[idx] && sprite_on(x, y, s, nrows, idx)
}

/// Whether XOR-drawing sprite `s` at `(x, y)` flips some pixel of `g` from
/// on to off.
pub open spec fn draw_collides(g: Seq<bool>, x: int, y: int, s: Seq<u8>) -> bool {
    collides_upto(g, x, y, s, s.len() as int)
}

/// Two in-range offsets added to the same base are distinct modulo `m`.
proof fn lemma_mod_shift_ne(a: int, b1: int, b2: int, m: int)
    requires
        0 <= b1 < b2,
        b2 - b1 < m,
        a >= 0,
    ensures
        (a + b1) % m != (a + b2) % m,
{
    lemma_fundamental_div_mod(a + b1, m);
    lemma_fundamental_div_mod(a + b2, m);
    if (a + b1) % m == (a + b2) % m {
        let q1 = (a + b1) / m;
        let q2 = (a + b2) / m;
        assert(m * q2 - m * q1 == (q2 - q1) * m) by (nonlinear_arith);
        assert(b2 - b1 == (q2 - q1) * m);
        assert(q2 - q1 >= 1 ==> (q2 - q1) * m >= m) by (nonlinear_arith)
            requires
                m > 0,
        ;
        assert(q2 - q1 <= 0 ==> (q2 - q1) * m <= 0) by (nonlinear_arith)
            requires
                m > 0,
        ;
    }
}

/// Extending a row by one bit covers exactly the old pixels plus, when the
/// new bit is set, the pixel of that bit.
proof fn lemma_row_on_step(x: int, py: int, byte: u8, b: int, idx: int)
    requires
        0 <= b,
    ensures
        row_on(x, py, byte, b + 1, idx) == (row_on(x, py, byte, b, idx) || (bit_of(byte, b) && idx
            == py * 64 + (x + b) % 64)),
{
    if row_on(x, py, byte, b + 1, idx) {
        let b0 = choose|b0: int|
            0 <= b0 < b + 1 && #[trigger] bit_of(byte, b0) && idx == py * 64 + (x + b0) % 64;
        if b0 < b {
            assert(row_on(x, py, byte, b, idx));
        }
    }
    if row_on(x, py, byte, b, idx) {
        let b0 = choose|b0: int|
            0 <= b0 < b && #[trigger] bit_of(byte, b0) && idx == py * 64 + (x + b0) % 64;
        assert(row_on(x, py, byte, b + 1, idx));
    }
    if bit_of(byte, b) && idx == py * 64 + (x + b) % 64 {
        assert(row_on(x, py, byte, b + 1, idx));
    }
}

/// Extending a sprite by one row covers exactly the old pixels plus the
/// pixels of that row.
proof fn lemma_sprite_on_step(x: int, y: int, s: Seq<u8>, r: int, idx: int)
    requires
        0 <= r,
    ensures
        sprite_on(x, y, s, r + 1, idx) == (sprite_on(x, y, s, r, idx) || row_on(
            x,
            (y + r) % 32,
            s[r],
            8,
            idx,
        )),
{
    if sprite_on(x, y, s, r + 1, idx) {
        let r0 = choose|r0: int| 0 <= r0 < r + 1 && #[trigger] row_on(x, (y + r0) % 32, s[r0], 8, idx);
        if r0 < r {
            assert(sprite_on(x, y, s, r, idx));
        }
    }
    if sprite_on(x, y, s, r, idx) {
        let r0 = choose|r0: int| 0 <= r0 < r && #[trigger] row_on(x, (y + r0) % 32, s[r0], 8, idx);
        assert(sprite_on(x, y, s, r + 1, idx));
    }
    if row_on(x, (y + r) % 32, s[r], 8, idx) {
        assert(sprite_on(x, y, s, r + 1, idx));
    }
}

/// The pixel of bit `b` of a row is not covered by the earlier bits of the
/// same row.
proof fn lemma_not_row_on_earlier(x: int, py: int, byte: u8, b: int)
    requires
        0 <= b < 8,
        x >= 0,
    ensures
        !row_on(x, py, byte, b, py * 64 + (x + b) % 64),
{
    let idx = py * 64 + (x + b) % 64;
    if row_on(x, py, byte, b, idx) {
        let b0 = choose|b0: int|
            0 <= b0 < b && #[trigger] bit_of(byte, b0) && idx == py * 64 + (x + b0) % 64;
        lemma_mod_shift_ne(x, b0, b, 64);
    }
}

/// A pixel of row `r` is not covered by the earlier rows of the sprite.
proof fn lemma_not_sprite_on_row(x: int, y: int, s: Seq<u8>, r: int, px: int)
    requires
        0 <= r < 32,
        x >= 0,
        y >= 0,
        0 <= px < 64,
    ensures
        !sprite_on(x, y, s, r, ((y + r) % 32) * 64 + px),
{
    let py = (y + r) % 32;
    let idx = py * 64 + px;
    lemma_mod_bound(y + r, 32);
    if sprite_on(x, y, s, r, idx) {
        let r0 = choose|r0: int| 0 <= r0 < r && #[trigger] row_on(x, (y + r0) % 32, s[r0], 8, idx);
        let py0 = (y + r0) % 32;
        lemma_mod_bound(y + r0, 32);
        lemma_mod_shift_ne(y, r0, r, 32);
        let b0 = choose|b0: int|
            0 <= b0 < 8 && #[trigger] bit_of(s[r0], b0) && idx == py0 * 64 + (x + b0) % 64;
        lemma_mod_bound(x + b0, 64);
        assert(py0 * 64 + (x + b0) % 64 != py * 64 + px);
    }
}

/// The 64x32 grid of single-bit pixels.
pub struct Display {
    grid: Vec<bool>,
}

impl View for Display {
    type V = Seq<bool>;

    closed spec fn view(&self) -> Seq<bool> {
        self.grid@
    }
}

impl Display {
    /// A display holds exactly 64x32 pixels.
    pub open spec fn wf(&self) -> bool {
        self@.len() == DISPLAY_PIXELS
    }

    /// A display with every pixel off.
    pub fn new() -> (d: Display)
        ensures
            d.wf(),
            d@ == Seq::new(DISPLAY_PIXELS as nat, |j: int| false),
    {
        let mut grid: Vec<bool> = Vec::new();
        let mut j: usize = 0;
        while j < DISPLAY_PIXELS
            invariant
                j == grid@.len(),
                j <= DISPLAY_PIXELS,
                forall|m: int| 0 <= m < j ==> !grid@[m],
            decreases DISPLAY_PIXELS - j,
        {
            grid.push(false);
            j = j + 1;
        }
        let d = Display { grid };
        proof {
            assert(d@ =~= Seq::new(DISPLAY_PIXELS as nat, |j: int| false));
        }
        d
    }

    /// Turn every pixel off.
    pub fn clear(&mut self)
        requires
            old(self).wf(),
        ensures
            final(self).wf(),
            final(self)@ == Seq::new(DISPLAY_PIXELS as nat, |j: int| false),
    {
        let mut j: usize = 0;
        while j < DISPLAY_PIXELS
            invariant
                self.wf(),
                j <= DISPLAY_PIXELS,
                forall|m: int| 0 <= m < j ==> !self@[m],
            decreases DISPLAY_PIXELS - j,
        {
            self.grid.set(j, false);
            j = j + 1;
        }
        proof {
            assert(self@ =~= Seq::new(DISPLAY_PIXELS as nat, |j: int| false));
        }
    }

    /// The pixel at column `col`, row `row`.
    pub fn pixel(&self, col: usize, row: usize) -> (r: bool)
        requires
            self.wf(),
            col < DISPLAY_WIDTH,
            row < DISPLAY_HEIGHT,
        ensures
            r == self@[row * 64 + col],
    {
        self.grid[row * DISPLAY_WIDTH + col]
    }

    /// A copy of the pixel grid, row-major.
    pub fn snapshot(&self) -> (r: Vec<bool>)
        requires
            self.wf(),
        ensures
            r@ == self@,
    {
        let mut r: Vec<bool> = Vec::new();
        let mut j: usize = 0;
        while j < DISPLAY_PIXELS
            invariant
                self.wf(),
                j == r@.len(),
                j <= DISPLAY_PIXELS,
                forall|m: int| 0 <= m < j ==> r@[m] == self@[m],
            decreases DISPLAY_PIXELS - j,
        {
            r.push(self.grid[j]);
            j = j + 1;
        }
        proof {
            assert(r@ =~= self@);
        }
        r
    }

    /// XOR-draw sprite `sprite` at position `(x, y)` with wraparound: bit
    /// `b` of sprite row `r` lands on row `(y + r) mod 32`, column
    /// `(x + b) mod 64`. Reports a collision exactly when some pixel flips
    /// from on to off.
    pub fn draw(&mut self, x: u8, y: u8, sprite: &Vec<u8>) -> (collision: bool)
        requires
            old(self).wf(),
            sprite@.len() <= 32,
        ensures
            final(self).wf(),
            final(self)@ == drawn(old(self)@, x as int, y as int, sprite@),
            collision == draw_collides(old(self)@, x as int, y as int, sprite@),
    {
        let ghost g0 = self@;
        let ghost xi = x as int;
        let ghost yi = y as int;
        let ghost s = sprite@;
        let mut collision = false;
        let n = sprite.len();
        let mut r: usize = 0;
        while r < n
            invariant
                self.wf(),
                r <= n,
                n == s.len(),
                n <= 32,
                s == sprite@,
                xi == x as int,
                yi == y as int,
                g0.len() == DISPLAY_PIXELS,
                forall|idx: int|
                    0 <= idx < DISPLAY_PIXELS ==> self@[idx] == (g0[idx] != sprite_on(
                        xi,
                        yi,
                        s,
                        r as int,
                        idx,
                    )),
                collision == collides_upto(g0, xi, yi, s, r as int),
            decreases n - r,
        {
            let byte = sprite[r];
            let py: usize = ((y as usize) + r) % 32;
            let ghost pyi = py as int;
            let mut b: usize = 0;
            while b < 8
                invariant
                    self.wf(),
                    b <= 8,
                    r < n,
                    n == s.len(),
                    n <= 32,
                    s == sprite@,
                    xi == x as int,
                    yi == y as int,
                    byte == s[r as int],
                    pyi == py as int,
                    pyi == (yi + r) % 32,
                    0 <= pyi < 32,
                    g0.len() == DISPLAY_PIXELS,
                    forall|idx: int|
                        0 <= idx < DISPLAY_PIXELS ==> self@[idx] == (g0[idx] != (sprite_on(
                            xi,
                            yi,
                            s,
                            r as int,
                            idx,
                        ) || row_on(xi, pyi, byte, b as int, idx))),
                    collision == (collides_upto(g0, xi, yi, s, r as int) || exists|idx: int|
                        0 <= idx < DISPLAY_PIXELS && #[trigger] g0[idx] && row_on(
                            xi,
                            pyi,
                            byte,
                            b as int,
                            idx,
                        )),
                decreases 8 - b,
            {
                let shift: u8 = (7 - b) as u8;
                if (byte >> shift) & 1 == 1 {
                    assert(bit_of(byte, b as int));
                    let px: usize = ((x as usize) + b) % 64;
                    let idx: usize = py * 64 + px;
                    let ghost idxi = idx as int;
                    proof {
                        lemma_not_row_on_earlier(xi, pyi, byte, b as int);
                        lemma_not_sprite_on_row(xi, yi, s, r as int, px as int);
                        assert(self@[idxi] == g0[idxi]);
                    }
                    let cur = self.grid[idx];
                    if cur {
                        collision = true;
                    }
                    self.grid.set(idx, !cur);
                    proof {
                        assert forall|j: int| 0 <= j < DISPLAY_PIXELS implies self@[j] == (g0[j]
                            != (sprite_on(xi, yi, s, r as int, j) || row_on(
                            xi,
                            pyi,
                            byte,
                            b as int + 1,
                            j,
                        ))) by {
                            lemma_row_on_step(xi, pyi, byte, b as int, j);
                        }
                        assert(collision == (collides_upto(g0, xi, yi, s, r as int)
                            || exists|j: int|
                            0 <= j < DISPLAY_PIXELS && #[trigger] g0[j] && row_on(
                                xi,
                                pyi,
                                byte,
                                b as int + 1,
                                j,
                            ))) by {
                            if collision {
                                if g0[idxi] {
                                    lemma_row_on_step(xi, pyi, byte, b as int, idxi);
                                    assert(g0[idxi] && row_on(xi, pyi, byte, b as int + 1, idxi));
                                } else {
                                    if !collides_upto(g0, xi, yi, s, r as int) {
                                        let j = choose|j: int|
                                            0 <= j < DISPLAY_PIXELS && #[trigger] g0[j] && row_on(
                                                xi,
                                                pyi,
                                                byte,
                                                b as int,
                                                j,
                                            );
                                        lemma_row_on_step(xi, pyi, byte, b as int, j);
                                        assert(g0[j] && row_on(xi, pyi, byte, b as int + 1, j));
                                    }
                                }
                            } else {
                                if exists|j: int|
                                    0 <= j < DISPLAY_PIXELS && #[trigger] g0[j] && row_on(
                                        xi,
                                        pyi,
                                        byte,
                                        b as int + 1,
                                        j,
                                    ) {
                                    let j = choose|j: int|
                                        0 <= j < DISPLAY_PIXELS && #[trigger] g0[j] && row_on(
                                            xi,
                                            pyi,
                                            byte,
                                            b as int + 1,
                                            j,
                                        );
                                    lemma_row_on_step(xi, pyi, byte, b as int, j);
                                }
                            }
                        }
                    }
                } else {
                    proof {
                        assert(!bit_of(byte, b as int));
                        assert forall|j: int| 0 <= j < DISPLAY_PIXELS implies self@[j] == (g0[j]
                            != (sprite_on(xi, yi, s, r as int, j) || row_on(
                            xi,
                            pyi,
                            byte,
                            b as int + 1,
                            j,
                        ))) by {
                            lemma_row_on_step(xi, pyi, byte, b as int, j);
                        }
                        assert forall|j: int| 0 <= j < DISPLAY_PIXELS implies row_on(
                            xi,
                            pyi,
                            byte,
                            b as int + 1,
                            j,
                        ) == row_on(xi, pyi, byte, b as int, j) by {
                            lemma_row_on_step(xi, pyi, byte, b as int, j);
                        }
                    }
                }
                b = b + 1;
            }
            proof {
                assert forall|j: int| 0 <= j < DISPLAY_PIXELS implies self@[j] == (g0[j]
                    != sprite_on(xi, yi, s, r as int + 1, j)) by {
                    lemma_sprite_on_step(xi, yi, s, r as int, j);
                }
                assert(collision == collides_upto(g0, xi, yi, s, r as int + 1)) by {
                    if collision {
                        if collides_upto(g0, xi, yi, s, r as int) {
                            let j = choose|j: int|
                                0 <= j < g0.len() && #[trigger] g0[j] && sprite_on(
                                    xi,
                                    yi,
                                    s,
                                    r as int,
                                    j,
                                );
                            lemma_sprite_on_step(xi, yi, s, r as int, j);
                            assert(g0[j] && sprite_on(xi, yi, s, r as int + 1, j));
                        } else {
                            let j = choose|j: int|
                                0 <= j < DISPLAY_PIXELS && #[trigger] g0[j] && row_on(
                                    xi,
                                    pyi,
                                    byte,
                                    8,
                                    j,
                                );
                            lemma_sprite_on_step(xi, yi, s, r as int, j);
                            assert(g0[j] && sprite_on(xi, yi, s, r as int + 1, j));
                        }
                    } else {
                        if collides_upto(g0, xi, yi, s, r as int + 1) {
                            let j = choose|j: int|
                                0 <= j < g0.len() && #[trigger] g0[j] && sprite_on(
                                    xi,
                                    yi,
                                    s,
                                    r as int + 1,
                                    j,
                                );
                            lemma_sprite_on_step(xi, yi, s, r as int, j);
                            assert(g0[j] && (sprite_on(xi, yi, s, r as int, j) || row_on(
                                xi,
                                pyi,
                                byte,
                                8,
                                j,
                            )));
                        }
                    }
                }
            }
            r = r + 1;
        }
        proof {
            assert(self@ =~= drawn(g0, xi, yi, s));
        }
        collision
    }
}

/// Drawing the same sprite twice at the same position restores the prior
/// framebuffer (a double XOR is the identity), and the second draw reports
/// a collision exactly when the first draw turned some pixel on.
pub proof fn lemma_draw_twice(g: Seq<bool>, x: int, y: int, s: Seq<u8>)
    ensures
        drawn(drawn(g, x, y, s), x, y, s) == g,
        draw_collides(drawn(g, x, y, s), x, y, s) == (exists|idx: int|
            0 <= idx < g.len() && !(#[trigger] g[idx]) && sprite_on(x, y, s, s.len() as int, idx)),
{
    let g1 = drawn(g, x, y, s);
    assert(drawn(g1, x, y, s) =~= g);
    if draw_collides(g1, x, y, s) {
        let j = choose|j: int|
            0 <= j < g1.len() && #[trigger] g1[j] && sprite_on(x, y, s, s.len() as int, j);
        assert(!g[j] && sprite_on(x, y, s, s.len() as int, j));
    }
    if exists|idx: int|
        0 <= idx < g.len() && !(#[trigger] g[idx]) && sprite_on(x, y, s, s.len() as int, idx) {
        let j = choose|j: int|
            0 <= j < g.len() && !(#[trigger] g[j]) && sprite_on(x, y, s, s.len() as int, j);
        assert(g1[j] && sprite_on(x, y, s, s.len() as int, j));
        assert(draw_collides(g1, x, y, s));
    }
}

} // verus!
