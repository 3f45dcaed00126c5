//! The display as a grid of cells, and what drawing a sprite does to it.
//!
//! A grid is a sequence of 32 rows of 64 cells. A sprite is a sequence of
//! bytes, one per row, whose most significant bit is the leftmost pixel.
use vstd::prelude::*;

verus! {

/// A grid has 32 rows of 64 cells.
pub open spec fn grid_wf(grid: Seq<Seq<bool>>) -> bool {
    &&& grid.len() == 32
    &&& forall|r: int| 0 <= r < 32 ==> (#[trigger] grid[r]).len() == 64
}

/// The grid with every cell off.
pub open spec fn blank() -> Seq<Seq<bool>> {
    Seq::new(32, |r: int| Seq::new(64, |c: int| false))
}

/// Bit `j` of a byte, counted from the most significant bit.
pub open spec fn bit_msb_first(byte: u8, j: int) -> bool {
    (byte >> ((7 - j) as u8)) & 1 == 1
}

/// The bits of a byte sequence, eight per byte, most significant first.
pub open spec fn unpack_msb_first(bytes: Seq<u8>) -> Seq<bool> {
    Seq::new(8 * bytes.len(), |k: int| bit_msb_first(bytes[k / 8], k % 8))
}

/// Whether the sprite has a set pixel in its row `i`, column `j`.
pub open spec fn sprite_pixel(sprite: Seq<u8>, i: int, j: int) -> bool {
    0 <= i < sprite.len() && 0 <= j < 8 && bit_msb_first(sprite[i], j)
}

/// The sprite row that lands on grid row `r` when the sprite's top row is at
/// grid row `vy`: sprite row `i` lands on grid row `(vy + i) % 32`.
pub open spec fn sprite_row(vy: int, r: int) -> int {
    (r - vy) % 32
}

/// The sprite column that lands on grid column `c` when the sprite's left
/// column is at grid column `vx`: sprite column `j` lands on grid column
/// `(vx + j) % 64`.
pub open spec fn sprite_column(vx: int, c: int) -> int {
    (c - vx) % 64
}

/// Whether a sprite whose top-left corner is at column `vx`, row `vy` has a
/// set pixel on the cell in row `r`, column `c`, each pixel wrapping round
/// the edges on its own.
pub open spec fn sprite_covers(sprite: Seq<u8>, vx: int, vy: int, r: int, c: int) -> bool {
    sprite_pixel(sprite, sprite_row(vy, r), sprite_column(vx, c))
}

/// The grid after the sprite has been xor-ed onto it.
pub open spec fn blit(grid: Seq<Seq<bool>>, sprite: Seq<u8>, vx: int, vy: int) -> Seq<Seq<bool>> {
    Seq::new(
        32,
        |r: int| Seq::new(64, |c: int| grid[r][c] != sprite_covers(sprite, vx, vy, r, c)),
    )
}

/// Whether xor-ing the sprite onto the grid turns a lit cell off.
pub open spec fn collides(grid: Seq<Seq<bool>>, sprite: Seq<u8>, vx: int, vy: int) -> bool {
    exists|r: int, c: int|
        0 <= r < 32 && 0 <= c < 64 && #[trigger] grid[r][c] && sprite_covers(sprite, vx, vy, r, c)
}

/// Pixel `(i, j)` of a sprite of fewer than 32 rows lands on the cell
/// `((vy + i) % 32, (vx + j) % 64)`, and on no other.
pub proof fn lemma_sprite_covers(sprite: Seq<u8>, vx: int, vy: int, i: int, j: int)
    requires
        0 <= i < 32,
        0 <= j < 64,
    ensures
        0 <= (vy + i) % 32 < 32,
        0 <= (vx + j) % 64 < 64,
        sprite_covers(sprite, vx, vy, (vy + i) % 32, (vx + j) % 64) == sprite_pixel(sprite, i, j),
        forall|r: int| 0 <= r < 32 && #[trigger] sprite_row(vy, r) == i ==> r == (vy + i) % 32,
        forall|c: int| 0 <= c < 64 && #[trigger] sprite_column(vx, c) == j ==> c == (vx + j) % 64,
{
}

/// Whether a drawing that goes through the sprite row by row, and through
/// each row from the left, has dealt with the pixel that lands on cell
/// `(r, c)` by the time it stands before sprite pixel `(i, j)`.
pub open spec fn reached(vx: int, vy: int, r: int, c: int, i: int, j: int) -> bool {
    sprite_row(vy, r) < i || (sprite_row(vy, r) == i && sprite_column(vx, c) < j)
}

/// The grid `now` is what a drawing onto `before` has made by the time it
/// stands before sprite pixel `(i, j)`: the cells dealt with hold their final
/// value, the others their first.
pub open spec fn partly_drawn(
    before: Seq<Seq<bool>>,
    now: Seq<Seq<bool>>,
    sprite: Seq<u8>,
    vx: int,
    vy: int,
    i: int,
    j: int,
) -> bool {
    &&& grid_wf(now)
    &&& forall|r: int, c: int|
        0 <= r < 32 && 0 <= c < 64 ==> #[trigger] now[r][c] == (before[r][c] != (sprite_covers(
            sprite,
            vx,
            vy,
            r,
            c,
        ) && reached(vx, vy, r, c, i, j)))
}

/// Whether a drawing onto `before` has turned a lit cell off by the time it
/// stands before sprite pixel `(i, j)`.
pub open spec fn hit_so_far(
    before: Seq<Seq<bool>>,
    sprite: Seq<u8>,
    vx: int,
    vy: int,
    i: int,
    j: int,
) -> bool {
    exists|r: int, c: int|
        0 <= r < 32 && 0 <= c < 64 && #[trigger] before[r][c] && sprite_covers(sprite, vx, vy, r, c)
            && reached(vx, vy, r, c, i, j)
}

/// Before the first pixel nothing is drawn and nothing is hit.
pub proof fn lemma_draw_start(before: Seq<Seq<bool>>, sprite: Seq<u8>, vx: int, vy: int)
    requires
        grid_wf(before),
    ensures
        partly_drawn(before, before, sprite, vx, vy, 0, 0),
        !hit_so_far(before, sprite, vx, vy, 0, 0),
{
}

/// Xor-ing sprite pixel `(i, j)` onto its cell takes a drawing from before
/// that pixel to before the next one in the row, and it has hit a lit cell
/// by then if it had before, or if that cell was lit and the pixel is set.
pub proof fn lemma_draw_pixel(
    before: Seq<Seq<bool>>,
    now: Seq<Seq<bool>>,
    next: Seq<Seq<bool>>,
    sprite: Seq<u8>,
    vx: int,
    vy: int,
    i: int,
    j: int,
)
    requires
        grid_wf(before),
        0 <= i < 32,
        0 <= j < 64,
        partly_drawn(before, now, sprite, vx, vy, i, j),
        next == now.update(
            (vy + i) % 32,
            now[(vy + i) % 32].update(
                (vx + j) % 64,
                now[(vy + i) % 32][(vx + j) % 64] != sprite_pixel(sprite, i, j),
            ),
        ),
    ensures
        partly_drawn(before, next, sprite, vx, vy, i, j + 1),
        hit_so_far(before, sprite, vx, vy, i, j + 1) <==> hit_so_far(before, sprite, vx, vy, i, j)
            || (now[(vy + i) % 32][(vx + j) % 64] && sprite_pixel(sprite, i, j)),
{
    let y = (vy + i) % 32;
    let x = (vx + j) % 64;
    lemma_sprite_covers(sprite, vx, vy, i, j);
    assert(sprite_row(vy, y) == i && sprite_column(vx, x) == j);
    assert(now[y][x] == before[y][x]);
    assert forall|r: int, c: int| 0 <= r < 32 && 0 <= c < 64 implies #[trigger] next[r][c] == (
    before[r][c] != (sprite_covers(sprite, vx, vy, r, c) && reached(vx, vy, r, c, i, j + 1))) by {
        assert(now[r][c] == (before[r][c] != (sprite_covers(sprite, vx, vy, r, c) && reached(
            vx,
            vy,
            r,
            c,
            i,
            j,
        ))));
        if r == y {
            if c == x {
            } else {
                assert(sprite_column(vx, c) != j);
            }
        } else {
            assert(sprite_row(vy, r) != i);
        }
    }
    if hit_so_far(before, sprite, vx, vy, i, j) {
        let (r, c) = choose|r: int, c: int|
            0 <= r < 32 && 0 <= c < 64 && #[trigger] before[r][c] && sprite_covers(
                sprite,
                vx,
                vy,
                r,
                c,
            ) && reached(vx, vy, r, c, i, j);
        assert(before[r][c] && sprite_covers(sprite, vx, vy, r, c) && reached(
            vx,
            vy,
            r,
            c,
            i,
            j + 1,
        ));
    }
    if now[y][x] && sprite_pixel(sprite, i, j) {
        assert(before[y][x] && sprite_covers(sprite, vx, vy, y, x) && reached(
            vx,
            vy,
            y,
            x,
            i,
            j + 1,
        ));
    }
    if hit_so_far(before, sprite, vx, vy, i, j + 1) {
        let (r, c) = choose|r: int, c: int|
            0 <= r < 32 && 0 <= c < 64 && #[trigger] before[r][c] && sprite_covers(
                sprite,
                vx,
                vy,
                r,
                c,
            ) && reached(vx, vy, r, c, i, j + 1);
        if r == y && c == x {
        } else {
            if r == y {
                assert(sprite_column(vx, c) != j);
            } else {
                assert(sprite_row(vy, r) != i);
            }
            assert(before[r][c] && sprite_covers(sprite, vx, vy, r, c) && reached(
                vx,
                vy,
                r,
                c,
                i,
                j,
            ));
        }
    }
}

/// A drawing that stands after the last pixel of a row stands before the
/// first pixel of the next row.
pub proof fn lemma_draw_row_done(
    before: Seq<Seq<bool>>,
    now: Seq<Seq<bool>>,
    sprite: Seq<u8>,
    vx: int,
    vy: int,
    i: int,
)
    requires
        partly_drawn(before, now, sprite, vx, vy, i, 8),
    ensures
        partly_drawn(before, now, sprite, vx, vy, i + 1, 0),
        hit_so_far(before, sprite, vx, vy, i + 1, 0) == hit_so_far(before, sprite, vx, vy, i, 8),
{
    assert forall|r: int, c: int| 0 <= r < 32 && 0 <= c < 64 implies (sprite_covers(
        sprite,
        vx,
        vy,
        r,
        c,
    ) && reached(vx, vy, r, c, i, 8)) == (sprite_covers(sprite, vx, vy, r, c) && reached(
        vx,
        vy,
        r,
        c,
        i + 1,
        0,
    )) by {}
    if hit_so_far(before, sprite, vx, vy, i, 8) {
        let (r, c) = choose|r: int, c: int|
            0 <= r < 32 && 0 <= c < 64 && #[trigger] before[r][c] && sprite_covers(
                sprite,
                vx,
                vy,
                r,
                c,
            ) && reached(vx, vy, r, c, i, 8);
        assert(before[r][c] && sprite_covers(sprite, vx, vy, r, c) && reached(
            vx,
            vy,
            r,
            c,
            i + 1,
            0,
        ));
    }
    if hit_so_far(before, sprite, vx, vy, i + 1, 0) {
        let (r, c) = choose|r: int, c: int|
            0 <= r < 32 && 0 <= c < 64 && #[trigger] before[r][c] && sprite_covers(
                sprite,
                vx,
                vy,
                r,
                c,
            ) && reached(vx, vy, r, c, i + 1, 0);
        assert(before[r][c] && sprite_covers(sprite, vx, vy, r, c) && reached(
            vx,
            vy,
            r,
            c,
            i,
            8,
        ));
    }
}

/// A drawing that stands after the last row has made the grid that `blit`
/// names, and has hit a lit cell exactly where `collides` says so.
pub proof fn lemma_draw_done(
    before: Seq<Seq<bool>>,
    now: Seq<Seq<bool>>,
    sprite: Seq<u8>,
    vx: int,
    vy: int,
)
    requires
        partly_drawn(before, now, sprite, vx, vy, sprite.len() as int, 0),
    ensures
        now == blit(before, sprite, vx, vy),
        hit_so_far(before, sprite, vx, vy, sprite.len() as int, 0) == collides(
            before,
            sprite,
            vx,
            vy,
        ),
{
    let n = sprite.len() as int;
    assert forall|r: int, c: int| 0 <= r < 32 && 0 <= c < 64 implies (sprite_covers(
        sprite,
        vx,
        vy,
        r,
        c,
    ) && reached(vx, vy, r, c, n, 0)) == sprite_covers(sprite, vx, vy, r, c) by {}
    assert(now =~~= blit(before, sprite, vx, vy));
    if hit_so_far(before, sprite, vx, vy, n, 0) {
        let (r, c) = choose|r: int, c: int|
            0 <= r < 32 && 0 <= c < 64 && #[trigger] before[r][c] && sprite_covers(
                sprite,
                vx,
                vy,
                r,
                c,
            ) && reached(vx, vy, r, c, n, 0);
        assert(before[r][c] && sprite_covers(sprite, vx, vy, r, c));
    }
    if collides(before, sprite, vx, vy) {
        let (r, c) = choose|r: int, c: int|
            0 <= r < 32 && 0 <= c < 64 && #[trigger] before[r][c] && sprite_covers(
                sprite,
                vx,
                vy,
                r,
                c,
            );
        assert(before[r][c] && sprite_covers(sprite, vx, vy, r, c) && reached(
            vx,
            vy,
            r,
            c,
            n,
            0,
        ));
    }
}

/// Bit `8 * i + j` of the unpacked bytes of a sprite is its pixel `(i, j)`.
pub proof fn lemma_bit_position(sprite: Seq<u8>, i: int, j: int)
    requires
        0 <= i < sprite.len(),
        0 <= j < 8,
    ensures
        0 <= 8 * i + j < unpack_msb_first(sprite).len(),
        unpack_msb_first(sprite)[8 * i + j] == sprite_pixel(sprite, i, j),
{
    assert((8 * i + j) / 8 == i && (8 * i + j) % 8 == j);
}

/// The coordinates `(x, y)` of every cell, row by row from the top, each
/// row from the left.
pub open spec fn all_cells() -> Seq<(usize, usize)> {
    Seq::new(2048, |k: int| ((k % 64) as usize, (k / 64) as usize))
}

/// Whether the cell at coordinates `(x, y)` is lit.
pub open spec fn is_lit(grid: Seq<Seq<bool>>) -> spec_fn((usize, usize)) -> bool {
    |cell: (usize, usize)| grid[cell.1 as int][cell.0 as int]
}

/// The coordinates `(x, y)` of the lit cells, row by row from the top, each
/// row from the left.
pub open spec fn lit_cells(grid: Seq<Seq<bool>>) -> Seq<(usize, usize)> {
    all_cells().filter(is_lit(grid))
}

/// Going one cell further adds that cell to the lit cells found so far if it
/// is lit, and nothing if it is not.
pub proof fn lemma_lit_cells_next(grid: Seq<Seq<bool>>, k: int)
    requires
        0 <= k < 2048,
    ensures
        all_cells().take(k + 1).filter(is_lit(grid)) == if grid[k / 64][k % 64] {
            all_cells().take(k).filter(is_lit(grid)).push(((k % 64) as usize, (k / 64) as usize))
        } else {
            all_cells().take(k).filter(is_lit(grid))
        },
        all_cells().take(0).filter(is_lit(grid)) == Seq::<(usize, usize)>::empty(),
        all_cells().take(2048) == all_cells(),
{
    reveal_with_fuel(Seq::filter, 2);
    let next = all_cells().take(k + 1);
    assert(next.drop_last() =~= all_cells().take(k));
    assert(next.last() == ((k % 64) as usize, (k / 64) as usize));
    assert(all_cells().take(0) =~= Seq::<(usize, usize)>::empty());
    assert(all_cells().take(2048) =~= all_cells());
}

} // verus!
