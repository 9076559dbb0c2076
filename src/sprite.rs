use vstd::prelude::*;

use vstd::arithmetic::div_mod::lemma_fundamental_div_mod;

use crate::state::{draw_row, draw_rows, pixel_index, sprite_bit, SCREEN_CELLS};

verus! {

/// Whether a lit pixel among the first `cols` of sprite row `row`, drawn
/// at `(x, y)`, lands on cell `k`.
pub open spec fn row_covers(bits: u8, x: u8, y: u8, row: int, cols: int, k: int) -> bool {
    exists|col: int|
        0 <= col < cols && sprite_bit(bits, col) && #[trigger] pixel_index(x, y, col, row) == k
}

/// Whether a lit pixel of the first `rows` rows of `sprite`, drawn at
/// `(x, y)`, lands on cell `k`.
pub open spec fn sprite_covers(sprite: Seq<u8>, x: u8, y: u8, rows: int, k: int) -> bool {
    exists|row: int, col: int|
        0 <= row < rows && 0 <= col < 8 && sprite_bit(sprite[row], col) && #[trigger] pixel_index(
            x,
            y,
            col,
            row,
        ) == k
}

/// Whether a lit pixel of the first `rows` rows of `sprite`, drawn at
/// `(x, y)`, lands on a cell that is lit in `gfx`.
pub open spec fn sprite_collides(gfx: Seq<u8>, sprite: Seq<u8>, x: u8, y: u8, rows: int) -> bool {
    exists|row: int, col: int|
        0 <= row < rows && 0 <= col < 8 && sprite_bit(sprite[row], col) && gfx[#[trigger] pixel_index(
            x,
            y,
            col,
            row,
        )] == 1
}

/// Two pixels of a sprite of at most sixteen rows never land on the same
/// cell: the wrap is modulo the whole buffer, which is larger than any
/// sprite's span.
pub proof fn lemma_pixel_index_injective(x: u8, y: u8, c1: int, r1: int, c2: int, r2: int)
    requires
        0 <= c1 < 8,
        0 <= c2 < 8,
        0 <= r1 < 16,
        0 <= r2 < 16,
        pixel_index(x, y, c1, r1) == pixel_index(x, y, c2, r2),
    ensures
        c1 == c2,
        r1 == r2,
{
    let p = x + c1 + (y + r1) * 64;
    let q = x + c2 + (y + r2) * 64;
    lemma_fundamental_div_mod(p, 2048);
    lemma_fundamental_div_mod(q, 2048);
    let d = p / 2048 - q / 2048;
    assert(p - q == 2048 * d) by (nonlinear_arith)
        requires
            p == 2048 * (p / 2048) + p % 2048,
            q == 2048 * (q / 2048) + q % 2048,
            p % 2048 == q % 2048,
            d == p / 2048 - q / 2048,
    ;
    assert(d == 0) by (nonlinear_arith)
        requires
            p - q == 2048 * d,
            -2048 < p - q < 2048,
    ;
}

/// The first `cols` pixels of one sprite row XOR the cells they land on,
/// and the flag also records whether one of those cells was lit.
proof fn lemma_draw_row(g0: Seq<u8>, h0: bool, bits: u8, x: u8, y: u8, row: int, cols: nat)
    requires
        g0.len() == SCREEN_CELLS,
        cols <= 8,
        0 <= row < 16,
    ensures
        ({
            let (g, h) = draw_row(g0, h0, bits, x, y, row, cols);
            &&& g.len() == SCREEN_CELLS
            &&& forall|k: int|
                0 <= k < SCREEN_CELLS ==> #[trigger] g[k] == if row_covers(
                    bits,
                    x,
                    y,
                    row,
                    cols as int,
                    k,
                ) {
                    g0[k] ^ 1u8
                } else {
                    g0[k]
                }
            &&& h == (h0 || exists|col: int|
                0 <= col < cols && sprite_bit(bits, col) && g0[#[trigger] pixel_index(x, y, col, row)]
                    == 1)
        }),
    decreases cols,
{
    if cols > 0 {
        let c = cols - 1;
        lemma_draw_row(g0, h0, bits, x, y, row, c as nat);
        let (g1, h1) = draw_row(g0, h0, bits, x, y, row, c as nat);
        let (g, h) = draw_row(g0, h0, bits, x, y, row, cols);
        let kc = pixel_index(x, y, c, row);
        assert(0 <= kc < SCREEN_CELLS);
        assert forall|k: int|
            0 <= k < SCREEN_CELLS && k != kc implies row_covers(bits, x, y, row, cols as int, k)
            == row_covers(bits, x, y, row, c, k) by {
            if row_covers(bits, x, y, row, cols as int, k) {
                let col = choose|col: int|
                    0 <= col < cols && sprite_bit(bits, col) && #[trigger] pixel_index(x, y, col, row)
                        == k;
                assert(col != c);
            }
        }
        if sprite_bit(bits, c) {
            assert(row_covers(bits, x, y, row, cols as int, kc));
            assert(!row_covers(bits, x, y, row, c, kc)) by {
                if row_covers(bits, x, y, row, c, kc) {
                    let col = choose|col: int|
                        0 <= col < c && sprite_bit(bits, col) && #[trigger] pixel_index(x, y, col, row)
                            == kc;
                    lemma_pixel_index_injective(x, y, col, row, c, row);
                }
            }
            assert(g1[kc] == g0[kc]);
            if h != (h0 || exists|col: int|
                0 <= col < cols && sprite_bit(bits, col) && g0[#[trigger] pixel_index(x, y, col, row)]
                    == 1) {
                let col = choose|col: int|
                    0 <= col < cols && sprite_bit(bits, col) && g0[#[trigger] pixel_index(x, y, col, row)]
                        == 1;
                if col < c {
                    assert(g0[pixel_index(x, y, col, row)] == 1);
                }
            }
        } else {
            assert(!row_covers(bits, x, y, row, cols as int, kc) || row_covers(bits, x, y, row, c, kc))
                by {
                if row_covers(bits, x, y, row, cols as int, kc) {
                    let col = choose|col: int|
                        0 <= col < cols && sprite_bit(bits, col) && #[trigger] pixel_index(x, y, col, row)
                            == kc;
                    assert(col != c);
                }
            }
            assert(row_covers(bits, x, y, row, c, kc) ==> row_covers(bits, x, y, row, cols as int, kc))
                by {
                if row_covers(bits, x, y, row, c, kc) {
                    let col = choose|col: int|
                        0 <= col < c && sprite_bit(bits, col) && #[trigger] pixel_index(x, y, col, row)
                            == kc;
                }
            }
            if h != (h0 || exists|col: int|
                0 <= col < cols && sprite_bit(bits, col) && g0[#[trigger] pixel_index(x, y, col, row)]
                    == 1) {
                let col = choose|col: int|
                    0 <= col < cols && sprite_bit(bits, col) && g0[#[trigger] pixel_index(x, y, col, row)]
                        == 1;
                assert(col != c);
                assert(g0[pixel_index(x, y, col, row)] == 1);
            }
        }
    }
}

/// The first `rows` rows of a sprite XOR the cells they land on.
proof fn lemma_draw_rows(gfx: Seq<u8>, sprite: Seq<u8>, x: u8, y: u8, rows: nat)
    requires
        gfx.len() == SCREEN_CELLS,
        rows <= sprite.len(),
        sprite.len() < 16,
    ensures
        ({
            let (g, h) = draw_rows(gfx, false, sprite, x, y, rows);
            &&& g.len() == SCREEN_CELLS
            &&& forall|k: int|
                0 <= k < SCREEN_CELLS ==> #[trigger] g[k] == if sprite_covers(
                    sprite,
                    x,
                    y,
                    rows as int,
                    k,
                ) {
                    gfx[k] ^ 1u8
                } else {
                    gfx[k]
                }
            &&& h == sprite_collides(gfx, sprite, x, y, rows as int)
        }),
    decreases rows,
{
    if rows > 0 {
        let q = rows - 1;
        lemma_draw_rows(gfx, sprite, x, y, q as nat);
        let (g1, h1) = draw_rows(gfx, false, sprite, x, y, q as nat);
        let bits = sprite[q];
        lemma_draw_row(g1, h1, bits, x, y, q, 8);
        let (g, h) = draw_rows(gfx, false, sprite, x, y, rows);
        // A cell that row `q` lands on is untouched by the earlier rows.
        assert forall|col: int| 0 <= col < 8 implies !sprite_covers(
            sprite,
            x,
            y,
            q,
            #[trigger] pixel_index(x, y, col, q),
        ) by {
            let k = pixel_index(x, y, col, q);
            if sprite_covers(sprite, x, y, q, k) {
                let (r2, c2) = choose|r2: int, c2: int|
                    0 <= r2 < q && 0 <= c2 < 8 && sprite_bit(sprite[r2], c2) && #[trigger] pixel_index(
                        x,
                        y,
                        c2,
                        r2,
                    ) == k;
                lemma_pixel_index_injective(x, y, c2, r2, col, q);
            }
        }
        assert forall|k: int| 0 <= k < SCREEN_CELLS implies #[trigger] g[k] == if sprite_covers(
            sprite,
            x,
            y,
            rows as int,
            k,
        ) {
            gfx[k] ^ 1u8
        } else {
            gfx[k]
        } by {
            if row_covers(bits, x, y, q, 8, k) {
                let col = choose|col: int|
                    0 <= col < 8 && sprite_bit(bits, col) && #[trigger] pixel_index(x, y, col, q) == k;
                assert(sprite_covers(sprite, x, y, rows as int, k));
                assert(!sprite_covers(sprite, x, y, q, pixel_index(x, y, col, q)));
            } else {
                if sprite_covers(sprite, x, y, rows as int, k) {
                    let (r2, c2) = choose|r2: int, c2: int|
                        0 <= r2 < rows && 0 <= c2 < 8 && sprite_bit(sprite[r2], c2)
                            && #[trigger] pixel_index(x, y, c2, r2) == k;
                    if r2 == q {
                        assert(row_covers(bits, x, y, q, 8, k));
                    }
                    assert(sprite_covers(sprite, x, y, q, k));
                }
                if sprite_covers(sprite, x, y, q, k) {
                    let (r2, c2) = choose|r2: int, c2: int|
                        0 <= r2 < q && 0 <= c2 < 8 && sprite_bit(sprite[r2], c2)
                            && #[trigger] pixel_index(x, y, c2, r2) == k;
                    assert(sprite_covers(sprite, x, y, rows as int, k));
                }
            }
        }
        let last = exists|col: int|
            0 <= col < 8 && sprite_bit(bits, col) && g1[#[trigger] pixel_index(x, y, col, q)] == 1;
        assert(h == (h1 || last));
        if sprite_collides(gfx, sprite, x, y, rows as int) {
            let (r2, c2) = choose|r2: int, c2: int|
                0 <= r2 < rows && 0 <= c2 < 8 && sprite_bit(sprite[r2], c2) && gfx[#[trigger] pixel_index(
                    x,
                    y,
                    c2,
                    r2,
                )] == 1;
            if r2 == q {
                assert(!sprite_covers(sprite, x, y, q, pixel_index(x, y, c2, q)));
                assert(g1[pixel_index(x, y, c2, q)] == 1);
                assert(last);
            } else {
                assert(sprite_collides(gfx, sprite, x, y, q));
            }
        }
        if h1 {
            let (r2, c2) = choose|r2: int, c2: int|
                0 <= r2 < q && 0 <= c2 < 8 && sprite_bit(sprite[r2], c2) && gfx[#[trigger] pixel_index(
                    x,
                    y,
                    c2,
                    r2,
                )] == 1;
            assert(sprite_collides(gfx, sprite, x, y, rows as int));
        }
        if last {
            let col = choose|col: int|
                0 <= col < 8 && sprite_bit(bits, col) && g1[#[trigger] pixel_index(x, y, col, q)] == 1;
            assert(!sprite_covers(sprite, x, y, q, pixel_index(x, y, col, q)));
            assert(gfx[pixel_index(x, y, col, q)] == 1);
            assert(sprite_collides(gfx, sprite, x, y, rows as int));
        }
    }
}

/// Drawing a sprite of fewer than sixteen rows, as `Dxyn` does with the
/// `n` bytes at the index register, XORs it onto the frame buffer: a cell
/// flips exactly when a lit sprite pixel lands on it, and
/// the collision flag is raised exactly when one of those cells was lit.
pub proof fn lemma_draw_flips_covered_cells(gfx: Seq<u8>, sprite: Seq<u8>, x: u8, y: u8)
    requires
        gfx.len() == SCREEN_CELLS,
        sprite.len() < 16,
    ensures
        draw_rows(gfx, false, sprite, x, y, sprite.len()).0.len() == SCREEN_CELLS,
        forall|k: int|
            0 <= k < SCREEN_CELLS ==> #[trigger] draw_rows(gfx, false, sprite, x, y, sprite.len()).0[k]
                == if sprite_covers(sprite, x, y, sprite.len() as int, k) {
                gfx[k] ^ 1u8
            } else {
                gfx[k]
            },
        draw_rows(gfx, false, sprite, x, y, sprite.len()).1 == sprite_collides(
            gfx,
            sprite,
            x,
            y,
            sprite.len() as int,
        ),
{
    lemma_draw_rows(gfx, sprite, x, y, sprite.len());
}

} // verus!
