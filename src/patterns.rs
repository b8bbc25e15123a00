//! Patterns placed away from the border, and the evolution of two classic
//! ones: the block and the blinker.
use crate::grid::{
    class_at, class_of, lemma_classification, lemma_neighbors_in_bounds, neighbors_of, valid_dims,
    Pos,
};
use crate::rules::{lemma_live_count_none, live_count, step, steps, survives};
use vstd::arithmetic::div_mod::{lemma_fundamental_div_mod, lemma_fundamental_div_mod_converse};
use vstd::prelude::*;

verus! {

/// The grid whose live cells are exactly those at the (row, column) pairs of
/// `live`.
pub open spec fn grid_of(live: Set<(int, int)>, width: int, height: int) -> Seq<bool> {
    Seq::new((width * height) as nat, |i: int| live.contains((i / width, i % width)))
}

/// Every live cell lies at least two rows and two columns inside the border.
pub open spec fn clear_of_border(live: Set<(int, int)>, width: int, height: int) -> bool {
    forall|p: (int, int)|
        #[trigger] live.contains(p) ==> 2 <= p.0 <= height - 3 && 2 <= p.1 <= width - 3
}

pub open spec fn one_if(b: bool) -> nat {
    if b {
        1
    } else {
        0
    }
}

/// How many of the eight cells that touch (row, col) are in `live`.
pub open spec fn live_around(live: Set<(int, int)>, row: int, col: int) -> nat {
    one_if(live.contains((row - 1, col - 1))) + one_if(live.contains((row - 1, col))) + one_if(
        live.contains((row - 1, col + 1)),
    ) + one_if(live.contains((row, col - 1))) + one_if(live.contains((row, col + 1))) + one_if(
        live.contains((row + 1, col - 1)),
    ) + one_if(live.contains((row + 1, col))) + one_if(live.contains((row + 1, col + 1)))
}

/// A 2 x 2 square with its top-left cell at (row, col).
pub open spec fn block(row: int, col: int) -> Set<(int, int)> {
    set![(row, col), (row, col + 1), (row + 1, col), (row + 1, col + 1)]
}

/// Three cells in a row, centred on (row, col).
pub open spec fn blinker_horizontal(row: int, col: int) -> Set<(int, int)> {
    set![(row, col - 1), (row, col), (row, col + 1)]
}

/// Three cells in a column, centred on (row, col).
pub open spec fn blinker_vertical(row: int, col: int) -> Set<(int, int)> {
    set![(row - 1, col), (row, col), (row + 1, col)]
}

proof fn lemma_coords(m: int, width: int, row: int, col: int)
    requires
        width > 0,
        0 <= col < width,
        m == row * width + col,
    ensures
        m / width == row,
        m % width == col,
{
    lemma_fundamental_div_mod_converse(m, width, row, col);
}

proof fn lemma_interior_step(live: Set<(int, int)>, w: int, h: int, j: int, r: int, c: int)
    requires
        valid_dims(w, h),
        0 <= j < w * h,
        j == r * w + c,
        1 <= r <= h - 2,
        1 <= c <= w - 2,
        class_of(j, w, h) == Pos::Interior,
    ensures
        step(grid_of(live, w, h), w, h)[j] == survives(
            live.contains((r, c)),
            live_around(live, r, c),
        ),
{
    lemma_neighbors_in_bounds(j, w, h);
    lemma_coords(j, w, r, c);
    assert((r - 1) * w == r * w - w) by (nonlinear_arith);
    assert((r + 1) * w == r * w + w) by (nonlinear_arith);
    lemma_coords(j - 1, w, r, c - 1);
    lemma_coords(j + 1, w, r, c + 1);
    lemma_coords(j - w, w, r - 1, c);
    lemma_coords(j + w, w, r + 1, c);
    lemma_coords(j - w + 1, w, r - 1, c + 1);
    lemma_coords(j - w - 1, w, r - 1, c - 1);
    lemma_coords(j + w + 1, w, r + 1, c + 1);
    lemma_coords(j + w - 1, w, r + 1, c - 1);
    reveal_with_fuel(live_count, 9);
}

proof fn lemma_border_step(live: Set<(int, int)>, w: int, h: int, j: int, r: int, c: int)
    requires
        valid_dims(w, h),
        clear_of_border(live, w, h),
        0 <= j < w * h,
        j == r * w + c,
        0 <= r < h,
        0 <= c < w,
        class_of(j, w, h) == class_at(r, c, w, h),
        class_of(j, w, h) != Pos::Interior,
    ensures
        !step(grid_of(live, w, h), w, h)[j],
{
    let g = grid_of(live, w, h);
    let nb = neighbors_of(j, w, h);
    let p = class_of(j, w, h);
    lemma_neighbors_in_bounds(j, w, h);
    assert((r - 1) * w == r * w - w) by (nonlinear_arith);
    assert((r + 1) * w == r * w + w) by (nonlinear_arith);
    match p {
        Pos::TopLeft => {
            lemma_coords(j + 1, w, r, c + 1);
            lemma_coords(j + w, w, r + 1, c);
            lemma_coords(j + w + 1, w, r + 1, c + 1);
        },
        Pos::TopRight => {
            lemma_coords(j - 1, w, r, c - 1);
            lemma_coords(j + w, w, r + 1, c);
            lemma_coords(j + w - 1, w, r + 1, c - 1);
        },
        Pos::BottomLeft => {
            lemma_coords(j + 1, w, r, c + 1);
            lemma_coords(j - w + 1, w, r - 1, c + 1);
            lemma_coords(j - w, w, r - 1, c);
        },
        Pos::BottomRight => {
            lemma_coords(j - 1, w, r, c - 1);
            lemma_coords(j - w - 1, w, r - 1, c - 1);
            lemma_coords(j - w, w, r - 1, c);
        },
        Pos::Top => {
            lemma_coords(j - 1, w, r, c - 1);
            lemma_coords(j + 1, w, r, c + 1);
            lemma_coords(j + w, w, r + 1, c);
            lemma_coords(j + w + 1, w, r + 1, c + 1);
            lemma_coords(j + w - 1, w, r + 1, c - 1);
        },
        Pos::Bottom => {
            lemma_coords(j - 1, w, r, c - 1);
            lemma_coords(j + 1, w, r, c + 1);
            lemma_coords(j - w, w, r - 1, c);
            lemma_coords(j - w + 1, w, r - 1, c + 1);
            lemma_coords(j - w - 1, w, r - 1, c - 1);
        },
        Pos::Left => {
            lemma_coords(j - w, w, r - 1, c);
            lemma_coords(j + 1, w, r, c + 1);
            lemma_coords(j + w, w, r + 1, c);
            lemma_coords(j + w - 1, w, r, w - 1);
            lemma_coords(j - w + 1, w, r - 1, c + 1);
        },
        Pos::Right => {
            lemma_coords(j - w, w, r - 1, c);
            lemma_coords(j - 1, w, r, c - 1);
            lemma_coords(j + w, w, r + 1, c);
            lemma_coords(j + w - 1, w, r + 1, c - 1);
            lemma_coords(j - w + 1, w, r, 0);
        },
        Pos::Interior => {},
    }
    assert forall|k: int| 0 <= k < nb.len() implies !#[trigger] g[nb[k]] by {
        let m = nb[k];
        assert(!live.contains((m / w, m % w)));
    }
    lemma_live_count_none(g, nb);
}

/// Away from the border the board follows the geometric Life rule: a cell's
/// next state depends on the eight cells that touch it.
pub proof fn lemma_step_clear_of_border(live: Set<(int, int)>, width: int, height: int, j: int)
    requires
        valid_dims(width, height),
        clear_of_border(live, width, height),
        0 <= j < width * height,
    ensures
        step(grid_of(live, width, height), width, height)[j] == survives(
            live.contains((j / width, j % width)),
            live_around(live, j / width, j % width),
        ),
{
    let w = width;
    let r = j / w;
    let c = j % w;
    lemma_classification(j, w, height);
    lemma_fundamental_div_mod(j, w);
    assert(j == r * w + c) by (nonlinear_arith)
        requires
            j == w * r + c,
    ;
    assert(0 <= r < height) by (nonlinear_arith)
        requires
            j == r * w + c,
            0 <= c < w,
            0 <= j < w * height,
            w >= 2,
    ;
    if class_of(j, w, height) == Pos::Interior {
        lemma_interior_step(live, w, height, j, r, c);
    } else {
        lemma_border_step(live, w, height, j, r, c);
    }
}

/// A 2 x 2 block at least two cells inside the border is a still life: one
/// generation, and so any number of them, leaves it as it is.
pub proof fn lemma_block_is_still(width: int, height: int, row: int, col: int, n: nat)
    requires
        valid_dims(width, height),
        2 <= row && row + 1 <= height - 3,
        2 <= col && col + 1 <= width - 3,
    ensures
        step(grid_of(block(row, col), width, height), width, height) == grid_of(
            block(row, col),
            width,
            height,
        ),
        steps(grid_of(block(row, col), width, height), width, height, n) == grid_of(
            block(row, col),
            width,
            height,
        ),
    decreases n,
{
    let live = block(row, col);
    let g = grid_of(live, width, height);
    assert forall|j: int| 0 <= j < g.len() implies #[trigger] step(g, width, height)[j] == g[j] by {
        lemma_step_clear_of_border(live, width, height, j);
    }
    assert(step(g, width, height) =~= g);
    if n > 0 {
        lemma_block_is_still(width, height, row, col, (n - 1) as nat);
    }
}

/// A blinker at least two cells inside the border turns from a row into a
/// column and back: it returns to its first state after two generations.
pub proof fn lemma_blinker_period_two(width: int, height: int, row: int, col: int)
    requires
        valid_dims(width, height),
        3 <= row <= height - 4,
        3 <= col <= width - 4,
    ensures
        step(grid_of(blinker_horizontal(row, col), width, height), width, height) == grid_of(
            blinker_vertical(row, col),
            width,
            height,
        ),
        step(grid_of(blinker_vertical(row, col), width, height), width, height) == grid_of(
            blinker_horizontal(row, col),
            width,
            height,
        ),
        steps(grid_of(blinker_horizontal(row, col), width, height), width, height, 2) == grid_of(
            blinker_horizontal(row, col),
            width,
            height,
        ),
{
    let hz = blinker_horizontal(row, col);
    let vt = blinker_vertical(row, col);
    let gh = grid_of(hz, width, height);
    let gv = grid_of(vt, width, height);
    assert forall|j: int| 0 <= j < gh.len() implies #[trigger] step(gh, width, height)[j]
        == gv[j] by {
        lemma_step_clear_of_border(hz, width, height, j);
    }
    assert(step(gh, width, height) =~= gv);
    assert forall|j: int| 0 <= j < gv.len() implies #[trigger] step(gv, width, height)[j]
        == gh[j] by {
        lemma_step_clear_of_border(vt, width, height, j);
    }
    assert(step(gv, width, height) =~= gh);
    assert(steps(gh, width, height, 0) == gh);
    assert(steps(gh, width, height, 1) == step(gh, width, height));
}

} // verus!
