//! Position classes of the cells of a `width` x `height` row-major grid, and
//! the neighbour offsets that each class reads.
use vstd::arithmetic::div_mod::{lemma_fundamental_div_mod_converse, lemma_mod_self_0};
use vstd::prelude::*;

verus! {

/// Where a cell stands relative to the edges and corners of the grid.
#[derive(Clone, Copy, Debug, PartialEq, Eq, Structural)]
pub enum Pos {
    TopLeft,
    TopRight,
    BottomLeft,
    BottomRight,
    Top,
    Bottom,
    Left,
    Right,
    Interior,
}

/// The dimensions that a grid may have: at least two cells each way, and a
/// cell count that fits in `usize`.
pub open spec fn valid_dims(width: int, height: int) -> bool {
    &&& width >= 2
    &&& height >= 2
    &&& width * height <= usize::MAX
}

/// The class of the cell at `index`, by the first of these rules that applies.
pub open spec fn class_of(index: int, width: int, height: int) -> Pos {
    let n = width * height;
    if index == 0 {
        Pos::TopLeft
    } else if index == width - 1 {
        Pos::TopRight
    } else if index == n - width {
        Pos::BottomLeft
    } else if index == n - 1 {
        Pos::BottomRight
    } else if 0 < index < width - 1 {
        Pos::Top
    } else if n - width < index < n - 1 {
        Pos::Bottom
    } else if index % width == 0 {
        Pos::Left
    } else if (index + 1) % width == 0 {
        Pos::Right
    } else {
        Pos::Interior
    }
}

/// The class of the cell in row `row` and column `col`, read off the geometry.
pub open spec fn class_at(row: int, col: int, width: int, height: int) -> Pos {
    let top = row == 0;
    let bottom = row == height - 1;
    let left = col == 0;
    let right = col == width - 1;
    if top && left {
        Pos::TopLeft
    } else if top && right {
        Pos::TopRight
    } else if bottom && left {
        Pos::BottomLeft
    } else if bottom && right {
        Pos::BottomRight
    } else if top {
        Pos::Top
    } else if bottom {
        Pos::Bottom
    } else if left {
        Pos::Left
    } else if right {
        Pos::Right
    } else {
        Pos::Interior
    }
}

pub open spec fn is_corner(p: Pos) -> bool {
    p == Pos::TopLeft || p == Pos::TopRight || p == Pos::BottomLeft || p == Pos::BottomRight
}

pub open spec fn is_edge(p: Pos) -> bool {
    p == Pos::Top || p == Pos::Bottom || p == Pos::Left || p == Pos::Right
}

/// The offsets, relative to a cell's index, of the neighbours that a cell of
/// class `p` reads.
pub open spec fn offsets(p: Pos, w: int) -> Seq<int> {
    match p {
        Pos::TopLeft => seq![1, w, w + 1],
        Pos::TopRight => seq![-1, w, w - 1],
        Pos::BottomLeft => seq![1, -w + 1, -w],
        Pos::BottomRight => seq![-1, -w - 1, -w],
        Pos::Top => seq![-1, 1, w, w + 1, w - 1],
        Pos::Bottom => seq![-1, 1, -w, -w + 1, -w - 1],
        Pos::Left => seq![-w, 1, w, w - 1, -w + 1],
        Pos::Right => seq![-w, -1, w, w - 1, -w + 1],
        Pos::Interior => seq![-1, 1, -w, w, -w + 1, -w - 1, w + 1, w - 1],
    }
}

/// The indices of the cells that the cell at `index` reads as its neighbours.
pub open spec fn neighbors_of(index: int, width: int, height: int) -> Seq<int> {
    offsets(class_of(index, width, height), width).map_values(|o: int| index + o)
}

proof fn lemma_cells_at_least_two_rows(width: int, height: int)
    requires
        width >= 2,
        height >= 2,
    ensures
        width * height >= 2 * width,
        (height - 1) * width == width * height - width,
{
    assert(width * height >= 2 * width) by (nonlinear_arith)
        requires
            width >= 2,
            height >= 2,
    ;
    assert((height - 1) * width == width * height - width) by (nonlinear_arith);
}

/// A cell that is neither in the top row nor in the bottom row, as the
/// classification sees it, lies at least one row away from both.
proof fn lemma_middle_rows(index: int, width: int, height: int)
    requires
        valid_dims(width, height),
        0 <= index < width * height,
    ensures
        is_edge(class_of(index, width, height)) && class_of(index, width, height) != Pos::Top
            && class_of(index, width, height) != Pos::Bottom ==> width <= index < width * height
            - width,
        class_of(index, width, height) == Pos::Interior ==> width + 1 <= index < width * height
            - width - 1 && width >= 3,
{
    let n = width * height;
    lemma_cells_at_least_two_rows(width, height);
    lemma_mod_self_0(width);
    lemma_fundamental_div_mod_converse(n - width, width, height - 1, 0);
    if class_of(index, width, height) == Pos::Interior && width == 2 {
        assert(index % 2 == 0 || (index + 1) % 2 == 0);
    }
}

/// Every neighbour that a cell reads lies on the grid.
pub proof fn lemma_neighbors_in_bounds(index: int, width: int, height: int)
    requires
        valid_dims(width, height),
        0 <= index < width * height,
    ensures
        forall|k: int|
            0 <= k < neighbors_of(index, width, height).len() ==> 0 <= #[trigger] neighbors_of(
                index,
                width,
                height,
            )[k] < width * height,
{
    lemma_cells_at_least_two_rows(width, height);
    lemma_middle_rows(index, width, height);
}

/// A corner cell reads three distinct neighbours, an edge cell at most five,
/// and an interior cell exactly eight distinct ones.
pub proof fn lemma_neighbor_counts(index: int, width: int, height: int)
    requires
        valid_dims(width, height),
        0 <= index < width * height,
    ensures
        is_corner(class_of(index, width, height)) ==> neighbors_of(index, width, height).len() == 3
            && neighbors_of(index, width, height).no_duplicates(),
        is_edge(class_of(index, width, height)) ==> neighbors_of(index, width, height).len() == 5,
        class_of(index, width, height) == Pos::Interior ==> neighbors_of(
            index,
            width,
            height,
        ).len() == 8 && neighbors_of(index, width, height).no_duplicates(),
{
    lemma_middle_rows(index, width, height);
    let nb = neighbors_of(index, width, height);
    let p = class_of(index, width, height);
    if is_corner(p) || p == Pos::Interior {
        assert forall|i: int, j: int|
            0 <= i < nb.len() && 0 <= j < nb.len() && i != j implies nb[i] != nb[j] by {
            assert(nb[i] == index + offsets(p, width)[i]);
            assert(nb[j] == index + offsets(p, width)[j]);
        }
    }
}

/// Every index of the grid has exactly one class, and that class is the one its
/// row and column give; the four corner cells are distinct cells, and they are
/// the only cells of a corner class.
pub proof fn lemma_classification(index: int, width: int, height: int)
    requires
        valid_dims(width, height),
        0 <= index < width * height,
    ensures
        class_of(index, width, height) == class_at(index / width, index % width, width, height),
        is_corner(class_of(index, width, height)) <==> (index == 0 || index == width - 1
            || index == width * height - width || index == width * height - 1),
        class_of(0, width, height) == Pos::TopLeft,
        class_of(width - 1, width, height) == Pos::TopRight,
        class_of(width * height - width, width, height) == Pos::BottomLeft,
        class_of(width * height - 1, width, height) == Pos::BottomRight,
        0 < width - 1 < width * height - width < width * height - 1,
{
    let n = width * height;
    let r = index / width;
    let c = index % width;
    lemma_cells_at_least_two_rows(width, height);
    vstd::arithmetic::div_mod::lemma_fundamental_div_mod(index, width);
    assert(0 <= c < width);
    assert(index == width * r + c);
    assert(0 <= r < height) by (nonlinear_arith)
        requires
            index == width * r + c,
            0 <= c < width,
            0 <= index < width * height,
            width >= 2,
    ;
    assert(r == 0 <==> index < width) by (nonlinear_arith)
        requires
            index == width * r + c,
            0 <= c < width,
            0 <= r,
    ;
    assert(r == height - 1 <==> index >= n - width) by (nonlinear_arith)
        requires
            index == width * r + c,
            0 <= c < width,
            0 <= r < height,
            n == width * height,
    ;
    if c + 1 < width {
        lemma_fundamental_div_mod_converse(index + 1, width, r, c + 1);
    } else {
        assert(index + 1 == (r + 1) * width + 0) by (nonlinear_arith)
            requires
                index == width * r + c,
                c + 1 == width,
        ;
        lemma_fundamental_div_mod_converse(index + 1, width, r + 1, 0);
    }
}

/// The class of the cell at `index` of a `width` x `height` grid.
pub fn classify(index: usize, width: usize, height: usize) -> (r: Pos)
    requires
        valid_dims(width as int, height as int),
        index < width * height,
    ensures
        r == class_of(index as int, width as int, height as int),
{
    proof {
        lemma_cells_at_least_two_rows(width as int, height as int);
    }
    let n = width * height;
    if index == 0 {
        Pos::TopLeft
    } else if index == width - 1 {
        Pos::TopRight
    } else if index == n - width {
        Pos::BottomLeft
    } else if index == n - 1 {
        Pos::BottomRight
    } else if 0 < index && index < width - 1 {
        Pos::Top
    } else if n - width < index && index < n - 1 {
        Pos::Bottom
    } else if index % width == 0 {
        Pos::Left
    } else if (index + 1) % width == 0 {
        Pos::Right
    } else {
        Pos::Interior
    }
}

/// The indices of the cells that the cell at `index`, of class `pos`, reads as
/// its neighbours, in the order of the class's offsets.
pub fn neighbor_indices(pos: Pos, index: usize, width: usize, height: usize) -> (r: Vec<usize>)
    requires
        valid_dims(width as int, height as int),
        index < width * height,
        pos == class_of(index as int, width as int, height as int),
    ensures
        r@.len() == neighbors_of(index as int, width as int, height as int).len(),
        forall|k: int|
            0 <= k < r@.len() ==> r@[k] as int == #[trigger] neighbors_of(
                index as int,
                width as int,
                height as int,
            )[k],
{
    proof {
        lemma_neighbors_in_bounds(index as int, width as int, height as int);
    }
    let ghost nb = neighbors_of(index as int, width as int, height as int);
    assert(0 <= nb[0] < width * height && 0 <= nb[1] < width * height && 0 <= nb[2] < width * height);
    assert(nb.len() > 3 ==> 0 <= nb[3] < width * height && 0 <= nb[4] < width * height);
    assert(nb.len() > 5 ==> 0 <= nb[5] < width * height && 0 <= nb[6] < width * height && 0 <= nb[7] < width * height);
    let w = width;
    let r = match pos {
        Pos::TopLeft => vec![index + 1, index + w, index + w + 1],
        Pos::TopRight => {
            let (left, below, below_left) = (index - 1, index + w, index + w - 1);
            vec![left, below, below_left]
        },
        Pos::BottomLeft => {
            let (right, above_right, above) = (index + 1, index - w + 1, index - w);
            vec![right, above_right, above]
        },
        Pos::BottomRight => {
            let (left, above_left, above) = (index - 1, index - w - 1, index - w);
            vec![left, above_left, above]
        },
        Pos::Top => {
            let (left, right) = (index - 1, index + 1);
            let (below, below_right, below_left) = (index + w, index + w + 1, index + w - 1);
            vec![left, right, below, below_right, below_left]
        },
        Pos::Bottom => {
            let (left, right) = (index - 1, index + 1);
            let (above, above_right, above_left) = (index - w, index - w + 1, index - w - 1);
            vec![left, right, above, above_right, above_left]
        },
        Pos::Left => {
            let (above, right, below) = (index - w, index + 1, index + w);
            let (plus_w_minus_one, minus_w_plus_one) = (index + w - 1, index - w + 1);
            vec![above, right, below, plus_w_minus_one, minus_w_plus_one]
        },
        Pos::Right => {
            let (above, left, below) = (index - w, index - 1, index + w);
            let (plus_w_minus_one, minus_w_plus_one) = (index + w - 1, index - w + 1);
            vec![above, left, below, plus_w_minus_one, minus_w_plus_one]
        },
        Pos::Interior => {
            let (left, right, above, below) = (index - 1, index + 1, index - w, index + w);
            let (above_right, above_left) = (index - w + 1, index - w - 1);
            let (below_right, below_left) = (index + w + 1, index + w - 1);
            vec![left, right, above, below, above_right, above_left, below_right, below_left]
        },
    };
    r
}

} // verus!
