//! The Life rule and the synchronous generation step, as mathematics.
use crate::grid::{lemma_neighbors_in_bounds, neighbors_of, valid_dims};
use vstd::prelude::*;

verus! {

/// How many of the cells at `indices` are alive.
pub open spec fn live_count(alive: Seq<bool>, indices: Seq<int>) -> nat
    decreases indices.len(),
{
    if indices.len() == 0 {
        0
    } else {
        live_count(alive, indices.drop_last()) + if alive[indices.last()] {
            1nat
        } else {
            0nat
        }
    }
}

/// The Life rule: three live neighbours give life, two keep a live cell alive,
/// any other count gives death.
pub open spec fn survives(alive: bool, live_neighbors: nat) -> bool {
    live_neighbors == 3 || (live_neighbors == 2 && alive)
}

/// The state of the cell at `index` in the next generation.
pub open spec fn next_alive(alive: Seq<bool>, width: int, height: int, index: int) -> bool {
    survives(alive[index], live_count(alive, neighbors_of(index, width, height)))
}

/// The next generation of the whole grid: every cell computed from the same
/// current generation.
pub open spec fn step(alive: Seq<bool>, width: int, height: int) -> Seq<bool> {
    Seq::new(alive.len(), |i: int| next_alive(alive, width, height, i))
}

/// The grid after `n` generations.
pub open spec fn steps(alive: Seq<bool>, width: int, height: int, n: nat) -> Seq<bool>
    decreases n,
{
    if n == 0 {
        alive
    } else {
        step(steps(alive, width, height, (n - 1) as nat), width, height)
    }
}

pub open spec fn all_dead(alive: Seq<bool>) -> bool {
    forall|i: int| 0 <= i < alive.len() ==> !#[trigger] alive[i]
}

/// No live cell among `indices` means a count of zero.
pub proof fn lemma_live_count_none(alive: Seq<bool>, indices: Seq<int>)
    requires
        forall|k: int| 0 <= k < indices.len() ==> !#[trigger] alive[indices[k]],
    ensures
        live_count(alive, indices) == 0,
    decreases indices.len(),
{
    if indices.len() > 0 {
        let rest = indices.drop_last();
        assert forall|k: int| 0 <= k < rest.len() implies !#[trigger] alive[rest[k]] by {
            assert(rest[k] == indices[k]);
        }
        lemma_live_count_none(alive, rest);
        assert(!alive[indices[indices.len() - 1]]);
    }
}

/// A cell whose neighbours are all dead is dead in the next generation,
/// whatever its class and its own state.
pub proof fn lemma_isolated_cell_dies(alive: Seq<bool>, width: int, height: int, index: int)
    requires
        valid_dims(width, height),
        alive.len() == width * height,
        0 <= index < width * height,
        forall|k: int|
            0 <= k < neighbors_of(index, width, height).len() ==> !#[trigger] alive[neighbors_of(
                index,
                width,
                height,
            )[k]],
    ensures
        !step(alive, width, height)[index],
{
    lemma_live_count_none(alive, neighbors_of(index, width, height));
}

/// An entirely dead grid stays entirely dead for any number of generations.
pub proof fn lemma_dead_grid_stays_dead(alive: Seq<bool>, width: int, height: int, n: nat)
    requires
        valid_dims(width, height),
        alive.len() == width * height,
        all_dead(alive),
    ensures
        steps(alive, width, height, n).len() == alive.len(),
        all_dead(steps(alive, width, height, n)),
    decreases n,
{
    if n > 0 {
        let prev = steps(alive, width, height, (n - 1) as nat);
        lemma_dead_grid_stays_dead(alive, width, height, (n - 1) as nat);
        assert forall|i: int| 0 <= i < prev.len() implies !#[trigger] step(
            prev,
            width,
            height,
        )[i] by {
            lemma_neighbors_in_bounds(i, width, height);
            lemma_isolated_cell_dies(prev, width, height, i);
        }
    }
}

} // verus!
