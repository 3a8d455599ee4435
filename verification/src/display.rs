//! Display surface: a 64x32 grid of 1-bit cells with XOR-plot semantics and
//! wraparound addressing. Sprites toggle cells; a toggle that clears a
//! previously set cell signals a collision.

use vstd::prelude::*;

verus! {

/// Number of cell columns.
pub const WIDTH: usize = 64;

/// Number of cell rows.
pub const HEIGHT: usize = 32;

/// A well-formed grid: exactly 64 * 32 cells, each 0 or 1.
pub open spec fn grid_wf(g: Seq<u8>) -> bool {
    g.len() == 2048 && forall|i: int| 0 <= i < 2048 ==> g[i] <= 1
}

/// Cell value (0 or 1) flipped by an XOR plot.
pub open spec fn toggle(v: u8) -> u8 {
    if v == 0 {
        1u8
    } else {
        0u8
    }
}

/// Flat index of the cell in column `x`, row `y`, after wraparound.
pub open spec fn pix_index(x: int, y: int) -> int {
    (x % 64) * 32 + (y % 32)
}

/// The value of the cell in column `x`, row `y` of grid `g` (no wraparound;
/// `0 <= x < 64`, `0 <= y < 32`).
pub open spec fn cell(g: Seq<u8>, x: int, y: int) -> u8 {
    g[x * 32 + y]
}

/// Whether sprite row byte `row` has a set bit at column offset `j`
/// (`0 <= j < 8`; the most significant bit is the leftmost column).
pub open spec fn row_bit(row: u8, j: int) -> bool {
    row & (1u8 << ((7 - j) as u8)) != 0
}

/// Whether the pairs `(r, j)` that come strictly before `(rr, jj)` in
/// row-major order place a set sprite bit on the cell `(cx, cy)`, for a
/// sprite of rows `rows` drawn with its origin at `(ox, oy)`.
pub open spec fn sprite_bit_upto(
    rows: Seq<u8>,
    ox: u8,
    oy: u8,
    cx: int,
    cy: int,
    rr: int,
    jj: int,
) -> bool {
    exists|r: int, j: int|
        0 <= r < rows.len() && 0 <= j < 8 && (r < rr || (r == rr && j < jj)) && cx == (ox + j) % 64
            && cy == (oy + r) % 32 && #[trigger] row_bit(rows[r], j)
}

/// Whether the sprite `rows`, drawn with its origin at `(ox, oy)`, places a
/// set bit on the cell `(cx, cy)` (wraparound addressing).
pub open spec fn sprite_bit(rows: Seq<u8>, ox: u8, oy: u8, cx: int, cy: int) -> bool {
    sprite_bit_upto(rows, ox, oy, cx, cy, rows.len() as int, 0)
}

/// The grid after drawing the sprite: every cell covered by a set sprite bit
/// is toggled, every other cell keeps its value.
pub open spec fn plot_grid(g: Seq<u8>, ox: u8, oy: u8, rows: Seq<u8>) -> Seq<u8> {
    Seq::new(g.len(), |i: int| if sprite_bit(rows, ox, oy, i / 32, i % 32) {
        toggle(g[i])
    } else {
        g[i]
    })
}

/// Whether drawing the sprite collides: some cell covered by a set sprite bit
/// was already set, so the toggle clears it.
pub open spec fn plot_coll(g: Seq<u8>, ox: u8, oy: u8, rows: Seq<u8>) -> bool {
    exists|cx: int, cy: int|
        0 <= cx < 64 && 0 <= cy < 32 && #[trigger] sprite_bit(rows, ox, oy, cx, cy) && cell(
            g,
            cx,
            cy,
        ) == 1
}

proof fn lemma_mod64_inj(base: u16, a: u16, b: u16)
    by (bit_vector)
    requires
        base < 256,
        a < 8,
        b < 8,
        (base + a) % 64 == (base + b) % 64,
    ensures
        a == b,
{
}

proof fn lemma_mod32_inj(base: u16, a: u16, b: u16)
    by (bit_vector)
    requires
        base < 256,
        a < 32,
        b < 32,
        (base + a) % 32 == (base + b) % 32,
    ensures
        a == b,
{
}

/// No pair comes before `(0, 0)`, so nothing is plotted yet.
proof fn lemma_upto_none(rows: Seq<u8>, ox: u8, oy: u8, g: Seq<u8>)
    ensures
        forall|cx: int, cy: int| !sprite_bit_upto(rows, ox, oy, cx, cy, 0, 0),
        !(exists|cx: int, cy: int|
            0 <= cx < 64 && 0 <= cy < 32 && #[trigger] sprite_bit_upto(rows, ox, oy, cx, cy, 0, 0)
                && cell(g, cx, cy) == 1),
{
    assert forall|cx: int, cy: int| !sprite_bit_upto(rows, ox, oy, cx, cy, 0, 0) by {
        if sprite_bit_upto(rows, ox, oy, cx, cy, 0, 0) {
            let (r0, j0) = choose|r0: int, j0: int|
                0 <= r0 < rows.len() && 0 <= j0 < 8 && (r0 < 0 || (r0 == 0 && j0 < 0)) && cx == (
                ox + j0) % 64 && cy == (oy + r0) % 32 && #[trigger] row_bit(rows[r0], j0);
            assert(false);
        }
    }
}

/// Extending the processed prefix by the single pair `(r, j)` adds exactly
/// that pair's contribution to the cell `(cx, cy)`.
proof fn lemma_upto_step(rows: Seq<u8>, ox: u8, oy: u8, cx: int, cy: int, r: int, j: int)
    requires
        0 <= r < rows.len(),
        0 <= j < 8,
    ensures
        sprite_bit_upto(rows, ox, oy, cx, cy, r, j + 1) <==> (sprite_bit_upto(
            rows,
            ox,
            oy,
            cx,
            cy,
            r,
            j,
        ) || (row_bit(rows[r], j) && cx == (ox + j) % 64 && cy == (oy + r) % 32)),
{
    if sprite_bit_upto(rows, ox, oy, cx, cy, r, j + 1) {
        let (r0, j0) = choose|r0: int, j0: int|
            0 <= r0 < rows.len() && 0 <= j0 < 8 && (r0 < r || (r0 == r && j0 < j + 1)) && cx == (ox
                + j0) % 64 && cy == (oy + r0) % 32 && #[trigger] row_bit(rows[r0], j0);
        if r0 < r || (r0 == r && j0 < j) {
            assert(sprite_bit_upto(rows, ox, oy, cx, cy, r, j));
        }
    }
    if sprite_bit_upto(rows, ox, oy, cx, cy, r, j) {
        let (r0, j0) = choose|r0: int, j0: int|
            0 <= r0 < rows.len() && 0 <= j0 < 8 && (r0 < r || (r0 == r && j0 < j)) && cx == (ox
                + j0) % 64 && cy == (oy + r0) % 32 && #[trigger] row_bit(rows[r0], j0);
        assert(sprite_bit_upto(rows, ox, oy, cx, cy, r, j + 1));
    }
    if row_bit(rows[r], j) && cx == (ox + j) % 64 && cy == (oy + r) % 32 {
        assert(sprite_bit_upto(rows, ox, oy, cx, cy, r, j + 1));
    }
}

/// After the eighth bit of a row, the prefix is the same as the start of the
/// next row.
proof fn lemma_upto_row_end(rows: Seq<u8>, ox: u8, oy: u8, cx: int, cy: int, r: int)
    requires
        0 <= r < rows.len(),
    ensures
        sprite_bit_upto(rows, ox, oy, cx, cy, r, 8) <==> sprite_bit_upto(
            rows,
            ox,
            oy,
            cx,
            cy,
            r + 1,
            0,
        ),
{
    if sprite_bit_upto(rows, ox, oy, cx, cy, r, 8) {
        let (r0, j0) = choose|r0: int, j0: int|
            0 <= r0 < rows.len() && 0 <= j0 < 8 && (r0 < r || (r0 == r && j0 < 8)) && cx == (ox
                + j0) % 64 && cy == (oy + r0) % 32 && #[trigger] row_bit(rows[r0], j0);
        assert(sprite_bit_upto(rows, ox, oy, cx, cy, r + 1, 0));
    }
    if sprite_bit_upto(rows, ox, oy, cx, cy, r + 1, 0) {
        let (r0, j0) = choose|r0: int, j0: int|
            0 <= r0 < rows.len() && 0 <= j0 < 8 && (r0 < r + 1 || (r0 == r + 1 && j0 < 0)) && cx
                == (ox + j0) % 64 && cy == (oy + r0) % 32 && #[trigger] row_bit(rows[r0], j0);
        assert(sprite_bit_upto(rows, ox, oy, cx, cy, r, 8));
    }
}

/// The pairs strictly before `(r, j)` never cover the cell that pair `(r, j)`
/// itself covers: within one sprite of at most 32 rows, distinct pairs land
/// on distinct cells.
proof fn lemma_upto_not_current(rows: Seq<u8>, ox: u8, oy: u8, r: int, j: int)
    requires
        0 <= r < rows.len(),
        rows.len() <= 32,
        0 <= j < 8,
    ensures
        !sprite_bit_upto(rows, ox, oy, (ox + j) % 64, (oy + r) % 32, r, j),
{
    let cx = (ox + j) % 64;
    let cy = (oy + r) % 32;
    if sprite_bit_upto(rows, ox, oy, cx, cy, r, j) {
        let (r0, j0) = choose|r0: int, j0: int|
            0 <= r0 < rows.len() && 0 <= j0 < 8 && (r0 < r || (r0 == r && j0 < j)) && cx == (ox
                + j0) % 64 && cy == (oy + r0) % 32 && #[trigger] row_bit(rows[r0], j0);
        lemma_mod32_inj(oy as u16, r0 as u16, r as u16);
        lemma_mod64_inj(ox as u16, j0 as u16, j as u16);
        assert(false);
    }
}

/// A pointwise-equivalent prefix predicate yields the same collision report.
proof fn lemma_coll_congruent(
    rows: Seq<u8>,
    ox: u8,
    oy: u8,
    g: Seq<u8>,
    r1: int,
    j1: int,
    r2: int,
    j2: int,
)
    requires
        forall|cx: int, cy: int|
            0 <= cx < 64 && 0 <= cy < 32 ==> (#[trigger] sprite_bit_upto(
                rows,
                ox,
                oy,
                cx,
                cy,
                r1,
                j1,
            ) <==> sprite_bit_upto(rows, ox, oy, cx, cy, r2, j2)),
    ensures
        (exists|cx: int, cy: int|
            0 <= cx < 64 && 0 <= cy < 32 && #[trigger] sprite_bit_upto(rows, ox, oy, cx, cy, r1, j1)
                && cell(g, cx, cy) == 1) <==> (exists|cx: int, cy: int|
            0 <= cx < 64 && 0 <= cy < 32 && #[trigger] sprite_bit_upto(rows, ox, oy, cx, cy, r2, j2)
                && cell(g, cx, cy) == 1),
{
    if exists|cx: int, cy: int|
        0 <= cx < 64 && 0 <= cy < 32 && #[trigger] sprite_bit_upto(rows, ox, oy, cx, cy, r1, j1)
            && cell(g, cx, cy) == 1 {
        let (cx0, cy0) = choose|cx0: int, cy0: int|
            0 <= cx0 < 64 && 0 <= cy0 < 32 && #[trigger] sprite_bit_upto(
                rows,
                ox,
                oy,
                cx0,
                cy0,
                r1,
                j1,
            ) && cell(g, cx0, cy0) == 1;
        assert(sprite_bit_upto(rows, ox, oy, cx0, cy0, r2, j2));
    }
    if exists|cx: int, cy: int|
        0 <= cx < 64 && 0 <= cy < 32 && #[trigger] sprite_bit_upto(rows, ox, oy, cx, cy, r2, j2)
            && cell(g, cx, cy) == 1 {
        let (cx0, cy0) = choose|cx0: int, cy0: int|
            0 <= cx0 < 64 && 0 <= cy0 < 32 && #[trigger] sprite_bit_upto(
                rows,
                ox,
                oy,
                cx0,
                cy0,
                r2,
                j2,
            ) && cell(g, cx0, cy0) == 1;
        assert(sprite_bit_upto(rows, ox, oy, cx0, cy0, r1, j1));
    }
}

/// Drawing the same sprite twice at the same origin restores the grid: each
/// covered cell is toggled twice and every other cell never changes, so the
/// second draw clears exactly the cells the first one set.
pub proof fn lemma_plot_twice(g: Seq<u8>, ox: u8, oy: u8, rows: Seq<u8>)
    requires
        forall|i: int| 0 <= i < g.len() ==> g[i] <= 1,
    ensures
        plot_grid(plot_grid(g, ox, oy, rows), ox, oy, rows) == g,
{
    let g1 = plot_grid(g, ox, oy, rows);
    let g2 = plot_grid(g1, ox, oy, rows);
    assert forall|i: int| 0 <= i < g.len() implies g2[i] == g[i] by {
        assert(g1[i] == if sprite_bit(rows, ox, oy, i / 32, i % 32) {
            toggle(g[i])
        } else {
            g[i]
        });
    }
    assert(g2 =~= g);
}

/// A draw onto a grid whose covered cells are all clear reports no collision:
/// only a toggle that clears an already-set cell collides.
pub proof fn lemma_plot_blank_no_collision(g: Seq<u8>, ox: u8, oy: u8, rows: Seq<u8>)
    requires
        g.len() == 2048,
        forall|cx: int, cy: int|
            0 <= cx < 64 && 0 <= cy < 32 && #[trigger] sprite_bit(rows, ox, oy, cx, cy) ==> cell(
                g,
                cx,
                cy,
            ) == 0,
    ensures
        !plot_coll(g, ox, oy, rows),
{
    if plot_coll(g, ox, oy, rows) {
        let (cx0, cy0) = choose|cx0: int, cy0: int|
            0 <= cx0 < 64 && 0 <= cy0 < 32 && #[trigger] sprite_bit(rows, ox, oy, cx0, cy0) && cell(
                g,
                cx0,
                cy0,
            ) == 1;
        assert(false);
    }
}

/// The 4-byte RGBA pixel for cell `i` (row-major over the frame) matches the
/// grid `g`: black when the cell is clear, white when it is set, opaque alpha.
pub open spec fn rgba_ok(g: Seq<u8>, f: Seq<u8>, i: int) -> bool {
    let v = if cell(g, i % 64, i / 64) == 0 {
        0u8
    } else {
        0xFFu8
    };
    f[4 * i] == v && f[4 * i + 1] == v && f[4 * i + 2] == v && f[4 * i + 3] == 0xFFu8
}

/// The display surface: a 64x32 bit grid stored in column-major order.
pub struct Renderer {
    pixels: Vec<u8>,
}

impl View for Renderer {
    type V = Seq<u8>;

    closed spec fn view(&self) -> Seq<u8> {
        self.pixels@
    }
}

impl Default for Renderer {
    /// A blank surface: every cell clear.
    fn default() -> (r: Renderer)
        ensures
            r.wf(),
            forall|i: int| 0 <= i < 2048 ==> r@[i] == 0,
    {
        Renderer { pixels: blank_cells() }
    }
}

/// A vector of 2048 clear cells.
fn blank_cells() -> (v: Vec<u8>)
    ensures
        v@.len() == 2048,
        forall|i: int| 0 <= i < 2048 ==> v@[i] == 0,
{
    let mut v: Vec<u8> = Vec::new();
    while v.len() < 2048
        invariant
            v@.len() <= 2048,
            forall|i: int| 0 <= i < v@.len() ==> v@[i] == 0,
        decreases 2048 - v@.len(),
    {
        v.push(0);
    }
    v
}

impl Renderer {
    /// The grid holds exactly 64 * 32 cells, each 0 or 1.
    pub open spec fn wf(&self) -> bool {
        grid_wf(self@)
    }

    /// A blank surface: every cell clear.
    pub fn new() -> (r: Renderer)
        ensures
            r.wf(),
            forall|i: int| 0 <= i < 2048 ==> r@[i] == 0,
    {
        Renderer { pixels: blank_cells() }
    }

    /// Clear every cell.
    pub fn clear(&mut self)
        ensures
            final(self).wf(),
            forall|i: int| 0 <= i < 2048 ==> final(self)@[i] == 0,
    {
        self.pixels = blank_cells();
    }

    /// The value of the cell in column `x`, row `y`.
    pub fn pixel(&self, x: usize, y: usize) -> (v: u8)
        requires
            self.wf(),
            x < 64,
            y < 32,
        ensures
            v == cell(self@, x as int, y as int),
    {
        self.pixels[x * 32 + y]
    }

    /// Draw a sprite of up to 32 byte rows with its origin at
    /// `(origin_x, origin_y)`: every set sprite bit toggles the cell it
    /// covers (with wraparound), and the result reports whether any toggle
    /// cleared a previously set cell.
    pub fn plot_sprite(&mut self, origin_x: u8, origin_y: u8, rows: &[u8]) -> (coll: bool)
        requires
            old(self).wf(),
            rows@.len() <= 32,
        ensures
            final(self).wf(),
            final(self)@ == plot_grid(old(self)@, origin_x, origin_y, rows@),
            coll == plot_coll(old(self)@, origin_x, origin_y, rows@),
    {
        let ghost g0 = self@;
        proof {
            lemma_upto_none(rows@, origin_x, origin_y, g0);
        }
        let mut coll = false;
        let mut r: usize = 0;
        while r < rows.len()
            invariant
                old(self).wf(),
                g0 == old(self)@,
                rows@.len() <= 32,
                r <= rows@.len(),
                self.wf(),
                forall|cx: int, cy: int|
                    0 <= cx < 64 && 0 <= cy < 32 ==> #[trigger] cell(self@, cx, cy) == (
                    if sprite_bit_upto(rows@, origin_x, origin_y, cx, cy, r as int, 0) {
                        toggle(cell(g0, cx, cy))
                    } else {
                        cell(g0, cx, cy)
                    }),
                coll == exists|cx: int, cy: int|
                    0 <= cx < 64 && 0 <= cy < 32 && #[trigger] sprite_bit_upto(
                        rows@,
                        origin_x,
                        origin_y,
                        cx,
                        cy,
                        r as int,
                        0,
                    ) && cell(g0, cx, cy) == 1,
            decreases rows@.len() - r,
        {
            let row = rows[r];
            let mut j: usize = 0;
            while j < 8
                invariant
                    old(self).wf(),
                    g0 == old(self)@,
                    rows@.len() <= 32,
                    r < rows@.len(),
                    row == rows@[r as int],
                    j <= 8,
                    self.wf(),
                    forall|cx: int, cy: int|
                        0 <= cx < 64 && 0 <= cy < 32 ==> #[trigger] cell(self@, cx, cy) == (
                        if sprite_bit_upto(rows@, origin_x, origin_y, cx, cy, r as int, j as int) {
                            toggle(cell(g0, cx, cy))
                        } else {
                            cell(g0, cx, cy)
                        }),
                    coll == exists|cx: int, cy: int|
                        0 <= cx < 64 && 0 <= cy < 32 && #[trigger] sprite_bit_upto(
                            rows@,
                            origin_x,
                            origin_y,
                            cx,
                            cy,
                            r as int,
                            j as int,
                        ) && cell(g0, cx, cy) == 1,
                decreases 8 - j,
            {
                let ghost rr = r as int;
                let ghost jj = j as int;
                let ghost cxv = (origin_x + jj) % 64;
                let ghost cyv = (origin_y + rr) % 32;
                if row & (1u8 << ((7 - j) as u8)) != 0 {
                    proof {
                        assert(row_bit(rows@[rr], jj));
                        lemma_upto_not_current(rows@, origin_x, origin_y, rr, jj);
                    }
                    let ghost prev = self@;
                    let c = self.set_pixel(origin_x as usize + j, origin_y as usize + r);
                    coll = coll || c;
                    proof {
                        let ghost ci = cxv * 32 + cyv;
                        assert(pix_index(
                            (origin_x as usize + j) as int,
                            (origin_y as usize + r) as int,
                        ) == ci);
                        assert(self@ == prev.update(ci, toggle(prev[ci])));
                        assert(cell(prev, cxv, cyv) == cell(g0, cxv, cyv));
                        assert(c == (cell(g0, cxv, cyv) == 1));
                        assert forall|cx: int, cy: int| 0 <= cx < 64 && 0 <= cy < 32 implies
                            #[trigger] cell(self@, cx, cy) == (if sprite_bit_upto(
                                rows@,
                                origin_x,
                                origin_y,
                                cx,
                                cy,
                                rr,
                                jj + 1,
                            ) {
                                toggle(cell(g0, cx, cy))
                            } else {
                                cell(g0, cx, cy)
                            }) by {
                            lemma_upto_step(rows@, origin_x, origin_y, cx, cy, rr, jj);
                            if cx == cxv && cy == cyv {
                                assert(cell(self@, cx, cy) == toggle(cell(g0, cx, cy)));
                                assert(sprite_bit_upto(rows@, origin_x, origin_y, cx, cy, rr, jj + 1));
                            } else {
                                assert(cx * 32 + cy != ci);
                                assert(cell(self@, cx, cy) == cell(prev, cx, cy));
                            }
                        }
                        let ghost coll_now = exists|cx: int, cy: int|
                            0 <= cx < 64 && 0 <= cy < 32 && #[trigger] sprite_bit_upto(
                                rows@,
                                origin_x,
                                origin_y,
                                cx,
                                cy,
                                rr,
                                jj + 1,
                            ) && cell(g0, cx, cy) == 1;
                        if c {
                            lemma_upto_step(rows@, origin_x, origin_y, cxv, cyv, rr, jj);
                            assert(sprite_bit_upto(rows@, origin_x, origin_y, cxv, cyv, rr, jj + 1));
                            assert(0 <= cxv < 64 && 0 <= cyv < 32);
                            assert(coll_now);
                        } else if coll {
                            let (cx0, cy0) = choose|cx0: int, cy0: int|
                                0 <= cx0 < 64 && 0 <= cy0 < 32 && #[trigger] sprite_bit_upto(
                                    rows@,
                                    origin_x,
                                    origin_y,
                                    cx0,
                                    cy0,
                                    rr,
                                    jj,
                                ) && cell(g0, cx0, cy0) == 1;
                            lemma_upto_step(rows@, origin_x, origin_y, cx0, cy0, rr, jj);
                            assert(sprite_bit_upto(rows@, origin_x, origin_y, cx0, cy0, rr, jj + 1));
                            assert(coll_now);
                        } else {
                            if coll_now {
                                let (cx0, cy0) = choose|cx0: int, cy0: int|
                                    0 <= cx0 < 64 && 0 <= cy0 < 32 && #[trigger] sprite_bit_upto(
                                        rows@,
                                        origin_x,
                                        origin_y,
                                        cx0,
                                        cy0,
                                        rr,
                                        jj + 1,
                                    ) && cell(g0, cx0, cy0) == 1;
                                lemma_upto_step(rows@, origin_x, origin_y, cx0, cy0, rr, jj);
                                if sprite_bit_upto(rows@, origin_x, origin_y, cx0, cy0, rr, jj) {
                                    assert(false);
                                } else {
                                    assert(cx0 == cxv && cy0 == cyv);
                                    assert(cell(g0, cxv, cyv) == 1);
                                    assert(false);
                                }
                            }
                        }
                        assert(coll == coll_now);
                    }
                } else {
                    proof {
                        assert(!row_bit(rows@[rr], jj));
                        assert forall|cx: int, cy: int| 0 <= cx < 64 && 0 <= cy < 32 implies
                            (#[trigger] sprite_bit_upto(rows@, origin_x, origin_y, cx, cy, rr, jj + 1)
                                <==> sprite_bit_upto(rows@, origin_x, origin_y, cx, cy, rr, jj)) by {
                            lemma_upto_step(rows@, origin_x, origin_y, cx, cy, rr, jj);
                        }
                        lemma_coll_congruent(rows@, origin_x, origin_y, g0, rr, jj, rr, jj + 1);
                    }
                }
                j += 1;
            }
            proof {
                assert forall|cx: int, cy: int| 0 <= cx < 64 && 0 <= cy < 32 implies
                    (#[trigger] sprite_bit_upto(rows@, origin_x, origin_y, cx, cy, r as int, 8)
                        <==> sprite_bit_upto(rows@, origin_x, origin_y, cx, cy, r as int + 1, 0)) by {
                    lemma_upto_row_end(rows@, origin_x, origin_y, cx, cy, r as int);
                }
                lemma_coll_congruent(rows@, origin_x, origin_y, g0, r as int, 8, r as int + 1, 0);
            }
            r += 1;
        }
        proof {
            assert forall|i: int| 0 <= i < 2048 implies self@[i] == plot_grid(
                g0,
                origin_x,
                origin_y,
                rows@,
            )[i] by {
                let cx = i / 32;
                let cy = i % 32;
                assert(cell(self@, cx, cy) == self@[i]);
                assert(cell(g0, cx, cy) == g0[i]);
            }
            assert(self@ =~= plot_grid(g0, origin_x, origin_y, rows@));
            let ghost nn = rows@.len() as int;
            if coll {
                let (cx0, cy0) = choose|cx0: int, cy0: int|
                    0 <= cx0 < 64 && 0 <= cy0 < 32 && #[trigger] sprite_bit_upto(
                        rows@,
                        origin_x,
                        origin_y,
                        cx0,
                        cy0,
                        nn,
                        0,
                    ) && cell(g0, cx0, cy0) == 1;
                assert(sprite_bit(rows@, origin_x, origin_y, cx0, cy0));
                assert(plot_coll(g0, origin_x, origin_y, rows@));
            } else {
                if plot_coll(g0, origin_x, origin_y, rows@) {
                    let (cx0, cy0) = choose|cx0: int, cy0: int|
                        0 <= cx0 < 64 && 0 <= cy0 < 32 && #[trigger] sprite_bit(
                            rows@,
                            origin_x,
                            origin_y,
                            cx0,
                            cy0,
                        ) && cell(g0, cx0, cy0) == 1;
                    assert(sprite_bit_upto(rows@, origin_x, origin_y, cx0, cy0, nn, 0));
                    assert(false);
                }
            }
        }
        coll
    }

    /// Write the grid into an RGBA frame buffer, one 4-byte pixel per cell in
    /// row-major order: black for a clear cell, white for a set one, alpha
    /// always opaque.
    pub fn draw(&self, frame: &mut Vec<u8>)
        requires
            self.wf(),
            old(frame)@.len() == 8192,
        ensures
            final(frame)@.len() == 8192,
            forall|i: int| 0 <= i < 2048 ==> #[trigger] rgba_ok(self@, final(frame)@, i),
    {
        let mut i: usize = 0;
        while i < 2048
            invariant
                self.wf(),
                i <= 2048,
                frame@.len() == 8192,
                forall|k: int| 0 <= k < i ==> #[trigger] rgba_ok(self@, frame@, k),
            decreases 2048 - i,
        {
            let x = i % 64;
            let y = i / 64;
            let v = if self.pixels[x * 32 + y] == 0 {
                0u8
            } else {
                0xFFu8
            };
            let ghost f0 = frame@;
            frame.set(4 * i, v);
            frame.set(4 * i + 1, v);
            frame.set(4 * i + 2, v);
            frame.set(4 * i + 3, 0xFF);
            proof {
                assert forall|k: int| 0 <= k < i + 1 implies #[trigger] rgba_ok(
                    self@,
                    frame@,
                    k,
                ) by {
                    if k < i {
                        assert(rgba_ok(self@, f0, k));
                        assert(4 * k + 3 < 4 * i);
                    } else {
                        assert(cell(self@, k % 64, k / 64) == self@[(i % 64) * 32 + (i / 64)]);
                    }
                }
            }
            i += 1;
        }
    }

    /// XOR-toggle the cell at `(x, y)` (coordinates wrap around the grid) and
    /// report whether the toggle cleared a previously set cell.
    pub fn set_pixel(&mut self, x: usize, y: usize) -> (coll: bool)
        requires
            old(self).wf(),
        ensures
            final(self).wf(),
            final(self)@ == old(self)@.update(
                pix_index(x as int, y as int),
                toggle(old(self)@[pix_index(x as int, y as int)]),
            ),
            coll == (old(self)@[pix_index(x as int, y as int)] == 1),
    {
        let idx = (x % 64) * 32 + (y % 32);
        let v = self.pixels[idx];
        if v == 1 {
            self.pixels.set(idx, 0);
            true
        } else {
            self.pixels.set(idx, 1);
            false
        }
    }
}

} // verus!
