use vstd::prelude::*;
use vstd::arithmetic::div_mod::{lemma_mod_add_multiples_vanish, lemma_mod_self_0, lemma_small_mod};
use crate::grid::{adjusted_rate, flip, grid_height, grid_width, in_grid, is_grid, live, neighbor};

verus! {

proof fn lemma_wrap(n: int)
    requires
        n >= 3,
    ensures
        (0 + -1 + n) % n == n - 1,
        (0 + 0 + n) % n == 0,
        (0 + 1 + n) % n == 1,
{
    lemma_small_mod((n - 1) as nat, n as nat);
    lemma_mod_self_0(n);
    lemma_mod_add_multiples_vanish(1, n);
    lemma_small_mod(1, n as nat);
}

/// The eight neighbours of the corner `(0, 0)` wrap around both edges: to the
/// last column `w - 1` and to the last row `h - 1`.
pub proof fn lemma_corner_neighbors(cells: Seq<Seq<bool>>)
    requires
        is_grid(cells),
        grid_width(cells) >= 3,
        grid_height(cells) >= 3,
    ensures
        ({
            let w = grid_width(cells);
            let h = grid_height(cells);
            &&& neighbor(cells, 0, 0, -1, -1) == live(cells, w - 1, h - 1)
            &&& neighbor(cells, 0, 0, 0, -1) == live(cells, 0, h - 1)
            &&& neighbor(cells, 0, 0, 1, -1) == live(cells, 1, h - 1)
            &&& neighbor(cells, 0, 0, -1, 0) == live(cells, w - 1, 0)
            &&& neighbor(cells, 0, 0, 1, 0) == live(cells, 1, 0)
            &&& neighbor(cells, 0, 0, -1, 1) == live(cells, w - 1, 1)
            &&& neighbor(cells, 0, 0, 0, 1) == live(cells, 0, 1)
            &&& neighbor(cells, 0, 0, 1, 1) == live(cells, 1, 1)
        }),
{
    let w = grid_width(cells);
    let h = grid_height(cells);
    lemma_wrap(w);
    lemma_wrap(h);
}

/// Flipping the same cell twice gives back the board it started from.
pub proof fn lemma_flip_twice(cells: Seq<Seq<bool>>, x: int, y: int)
    requires
        is_grid(cells),
        in_grid(cells, x, y),
    ensures
        flip(flip(cells, x, y), x, y) == cells,
{
    assert(cells[x].len() == cells[0].len());
    assert(flip(flip(cells, x, y), x, y)[x] =~= cells[x]);
    assert(flip(flip(cells, x, y), x, y) =~= cells);
}

/// The rate never drops below 1, and at 1 a decrement leaves it at 1, so any
/// number of decrements from 1 stays there.
pub proof fn lemma_rate_floor(rate: int, delta: int)
    requires
        1 <= rate <= u32::MAX,
    ensures
        1 <= adjusted_rate(rate, delta) <= u32::MAX,
        adjusted_rate(1, -1) == 1,
{
}

} // verus!
