//! The board: cells with their fixed classes, and the generation step.
use crate::grid::{
    class_of, classify, lemma_neighbor_counts, lemma_neighbors_in_bounds, neighbor_indices,
    neighbors_of, valid_dims, Pos,
};
use crate::rules::{live_count, step};
use crate::text::{board_text, cells_text, generation_label, glyph, push_decimal};
use vstd::prelude::*;

verus! {

/// The width of the board that `Board::new` makes.
pub const WIDTH: usize = 470;

/// The height of the board that `Board::new` makes.
pub const HEIGHT: usize = 100;

/// One cell: its visible state, the state computed for the next generation,
/// and its class, fixed when the board is made.
#[derive(Clone, Copy, Debug)]
struct Cell {
    state: bool,
    next: bool,
    pos: Pos,
}

/// A `width` x `height` grid of cells in row-major order, with the number of
/// generations computed so far.
#[derive(Debug)]
pub struct Board {
    data: Vec<Cell>,
    width: usize,
    height: usize,
    generation: u64,
}

/// The states that `entropy` gives to the first `n` cells: a cell with no
/// entry is dead.
pub open spec fn seeded(entropy: Seq<bool>, n: nat) -> Seq<bool> {
    Seq::new(n, |i: int| i < entropy.len() && entropy[i])
}

impl Board {
    pub closed spec fn spec_width(&self) -> int {
        self.width as int
    }

    pub closed spec fn spec_height(&self) -> int {
        self.height as int
    }

    pub closed spec fn spec_generation(&self) -> nat {
        self.generation as nat
    }

    /// The visible state of every cell, in row-major order.
    pub closed spec fn cells(&self) -> Seq<bool> {
        self.data@.map_values(|c: Cell| c.state)
    }

    /// The state computed for the next generation of every cell.
    pub closed spec fn pending(&self) -> Seq<bool> {
        self.data@.map_values(|c: Cell| c.next)
    }

    /// The class of every cell.
    pub closed spec fn classes(&self) -> Seq<Pos> {
        self.data@.map_values(|c: Cell| c.pos)
    }

    /// Valid dimensions, one cell per position, and each cell holding the
    /// class that its index gives.
    pub closed spec fn wf(&self) -> bool {
        &&& valid_dims(self.width as int, self.height as int)
        &&& self.data@.len() == self.width * self.height
        &&& forall|i: int|
            0 <= i < self.data@.len() ==> (#[trigger] self.data@[i]).pos == class_of(
                i,
                self.width as int,
                self.height as int,
            )
    }

    /// The classes of a well-formed board are those its indices give.
    pub proof fn lemma_wf_classes(&self)
        requires
            self.wf(),
        ensures
            valid_dims(self.spec_width(), self.spec_height()),
            self.cells().len() == self.spec_width() * self.spec_height(),
            self.pending().len() == self.cells().len(),
            self.classes().len() == self.cells().len(),
            forall|i: int|
                0 <= i < self.classes().len() ==> #[trigger] self.classes()[i] == class_of(
                    i,
                    self.spec_width(),
                    self.spec_height(),
                ),
    {
    }

    /// A board of valid dimensions with every cell dead.
    fn build(width: usize, height: usize) -> (r: Board)
        requires
            valid_dims(width as int, height as int),
        ensures
            r.wf(),
            r.spec_width() == width,
            r.spec_height() == height,
            r.spec_generation() == 0,
            r.cells() == Seq::new((width * height) as nat, |i: int| false),
            r.pending() == r.cells(),
    {
        let n = width * height;
        let mut data: Vec<Cell> = Vec::with_capacity(n);
        let mut i: usize = 0;
        while i < n
            invariant
                valid_dims(width as int, height as int),
                n == width * height,
                i <= n,
                data@.len() == i,
                forall|j: int|
                    0 <= j < i ==> (#[trigger] data@[j]).pos == class_of(
                        j,
                        width as int,
                        height as int,
                    ) && !data@[j].state && !data@[j].next,
            decreases n - i,
        {
            data.push(Cell { state: false, next: false, pos: classify(i, width, height) });
            i += 1;
        }
        let r = Board { data, width, height, generation: 0 };
        assert(r.cells() =~= Seq::new((width * height) as nat, |i: int| false));
        assert(r.pending() =~= r.cells());
        r
    }

    /// The board of the fixed size `WIDTH` x `HEIGHT`, every cell dead, at
    /// generation zero.
    pub fn new() -> (r: Board)
        ensures
            r.wf(),
            r.spec_width() == WIDTH,
            r.spec_height() == HEIGHT,
            r.spec_generation() == 0,
            r.cells() == Seq::new((WIDTH * HEIGHT) as nat, |i: int| false),
    {
        Board::build(WIDTH, HEIGHT)
    }

    /// A board of the given size, every cell dead, at generation zero; `None`
    /// when a side is shorter than two cells or the cell count overflows.
    pub fn with_size(width: usize, height: usize) -> (r: Option<Board>)
        ensures
            r.is_some() <==> valid_dims(width as int, height as int),
            r matches Some(b) ==> b.wf() && b.spec_width() == width && b.spec_height() == height
                && b.spec_generation() == 0 && b.cells() == Seq::new(
                (width * height) as nat,
                |i: int| false,
            ),
    {
        if width < 2 || height < 2 {
            return None;
        }
        match width.checked_mul(height) {
            None => None,
            Some(_) => Some(Board::build(width, height)),
        }
    }

    /// The number of live neighbours of the cell at `index`, read through the
    /// offsets of the class that the cell holds.
    pub fn live_neighbors(&self, index: usize) -> (r: u8)
        requires
            self.wf(),
            index < self.cells().len(),
        ensures
            r as nat == live_count(
                self.cells(),
                neighbors_of(index as int, self.spec_width(), self.spec_height()),
            ),
            r <= 8,
    {
        let ghost w = self.width as int;
        let ghost h = self.height as int;
        let ghost nbs = neighbors_of(index as int, w, h);
        let ghost alive = self.cells();
        proof {
            lemma_neighbors_in_bounds(index as int, w, h);
            lemma_neighbor_counts(index as int, w, h);
        }
        let nb = neighbor_indices(self.data[index].pos, index, self.width, self.height);
        let mut count: u8 = 0;
        let mut k: usize = 0;
        while k < nb.len()
            invariant
                self.wf(),
                alive == self.cells(),
                nb@.len() == nbs.len(),
                nbs.len() <= 8,
                forall|m: int| 0 <= m < nb@.len() ==> nb@[m] as int == #[trigger] nbs[m],
                forall|m: int| 0 <= m < nbs.len() ==> 0 <= #[trigger] nbs[m] < alive.len(),
                k <= nb@.len(),
                count <= k,
                count as nat == live_count(alive, nbs.take(k as int)),
            decreases nb@.len() - k,
        {
            let j = nb[k];
            assert(nbs.take(k + 1).drop_last() =~= nbs.take(k as int));
            assert(nbs.take(k + 1).last() == nbs[k as int]);
            if self.data[j].state {
                count += 1;
            }
            k += 1;
        }
        assert(nbs.take(nb@.len() as int) =~= nbs);
        count
    }

    /// Computes the next generation of every cell from the current one, then
    /// makes it visible, and counts one more generation.
    pub fn tick(&mut self)
        requires
            old(self).wf(),
            old(self).spec_generation() < u64::MAX,
        ensures
            final(self).wf(),
            final(self).spec_width() == old(self).spec_width(),
            final(self).spec_height() == old(self).spec_height(),
            final(self).cells() == step(
                old(self).cells(),
                old(self).spec_width(),
                old(self).spec_height(),
            ),
            final(self).pending() == final(self).cells(),
            final(self).spec_generation() == old(self).spec_generation() + 1,
    {
        let ghost w = self.width as int;
        let ghost h = self.height as int;
        let ghost alive = self.cells();
        let ghost next = step(alive, w, h);
        self.generation = self.generation + 1;
        let n = self.data.len();
        let mut i: usize = 0;
        while i < n
            invariant
                self.wf(),
                self.width == w,
                self.height == h,
                self.generation == old(self).generation + 1,
                self.data@.len() == n,
                next.len() == n,
                self.cells() == alive,
                next == step(alive, w, h),
                i <= n,
                forall|j: int| 0 <= j < i ==> (#[trigger] self.data@[j]).next == next[j],
            decreases n - i,
        {
            let live = self.live_neighbors(i);
            let mut c = self.data[i];
            c.next = live == 3 || (live == 2 && c.state);
            self.data.set(i, c);
            assert(self.cells() =~= alive);
            i += 1;
        }
        let mut i: usize = 0;
        while i < n
            invariant
                self.wf(),
                self.width == w,
                self.height == h,
                self.generation == old(self).generation + 1,
                self.data@.len() == n,
                next.len() == n,
                i <= n,
                forall|j: int| 0 <= j < n ==> (#[trigger] self.data@[j]).next == next[j],
                forall|j: int| 0 <= j < i ==> (#[trigger] self.data@[j]).state == next[j],
            decreases n - i,
        {
            let mut c = self.data[i];
            c.state = c.next;
            self.data.set(i, c);
            i += 1;
        }
        assert(self.cells() =~= next);
        assert(self.pending() =~= self.cells());
    }

    /// Gives the cell at each index `i` the state `entropy[i]` (dead where
    /// `entropy` has no entry), then computes one generation, so that the
    /// visible and pending states agree before the board is first shown.
    pub fn fill_random(&mut self, entropy: &Vec<bool>)
        requires
            old(self).wf(),
            old(self).spec_generation() < u64::MAX,
        ensures
            final(self).wf(),
            final(self).spec_width() == old(self).spec_width(),
            final(self).spec_height() == old(self).spec_height(),
            final(self).cells() == step(
                seeded(entropy@, old(self).cells().len()),
                old(self).spec_width(),
                old(self).spec_height(),
            ),
            final(self).pending() == final(self).cells(),
            final(self).spec_generation() == old(self).spec_generation() + 1,
    {
        let ghost seed = seeded(entropy@, self.cells().len());
        let ghost generation = self.generation;
        let n = self.data.len();
        let mut i: usize = 0;
        while i < n
            invariant
                self.wf(),
                self.width == old(self).width,
                self.height == old(self).height,
                self.generation == generation,
                self.data@.len() == n,
                seed.len() == n,
                seed == seeded(entropy@, n as nat),
                i <= n,
                forall|j: int| 0 <= j < i ==> (#[trigger] self.data@[j]).state == seed[j],
            decreases n - i,
        {
            let mut c = self.data[i];
            c.state = i < entropy.len() && entropy[i];
            self.data.set(i, c);
            i += 1;
        }
        assert(self.cells() =~= seed);
        self.tick();
    }

    /// The number of columns.
    pub fn width(&self) -> (r: usize)
        ensures
            r == self.spec_width(),
    {
        self.width
    }

    /// The number of rows.
    pub fn height(&self) -> (r: usize)
        ensures
            r == self.spec_height(),
    {
        self.height
    }

    /// The number of generations computed so far.
    pub fn generation(&self) -> (r: u64)
        ensures
            r == self.spec_generation(),
    {
        self.generation
    }

    /// The number of cells.
    pub fn cell_count(&self) -> (r: usize)
        ensures
            r == self.cells().len(),
    {
        self.data.len()
    }

    /// Whether the cell at `index` is alive.
    pub fn is_alive(&self, index: usize) -> (r: bool)
        requires
            index < self.cells().len(),
        ensures
            r == self.cells()[index as int],
    {
        self.data[index].state
    }

    /// The class of the cell at `index`.
    pub fn category(&self, index: usize) -> (r: Pos)
        requires
            index < self.cells().len(),
        ensures
            r == self.classes()[index as int],
            self.wf() ==> r == class_of(index as int, self.spec_width(), self.spec_height()),
    {
        self.data[index].pos
    }

    /// Makes the cell at `index` alive or dead; nothing else changes.
    pub fn set_alive(&mut self, index: usize, alive: bool)
        requires
            old(self).wf(),
            index < old(self).cells().len(),
        ensures
            final(self).wf(),
            final(self).spec_width() == old(self).spec_width(),
            final(self).spec_height() == old(self).spec_height(),
            final(self).spec_generation() == old(self).spec_generation(),
            final(self).cells() == old(self).cells().update(index as int, alive),
            final(self).pending() == old(self).pending(),
    {
        let mut c = self.data[index];
        c.state = alive;
        self.data.set(index, c);
        assert(self.cells() =~= old(self).cells().update(index as int, alive));
        assert(self.pending() =~= old(self).pending());
    }

    /// The board as text: each row on a line of its own, opened by a line
    /// break, a block for a live cell and a space for a dead one, then a line
    /// `GENERATION <n>`.
    pub fn render(&self) -> (r: String)
        requires
            self.wf(),
        ensures
            r@ == board_text(self.cells(), self.spec_width(), self.spec_generation()),
    {
        proof {
            reveal_strlit("\nGENERATION ");
        }
        let ghost alive = self.cells();
        let n = self.data.len();
        let mut out = String::new();
        let mut i: usize = 0;
        while i < n
            invariant
                self.wf(),
                alive == self.cells(),
                n == alive.len(),
                i <= n,
                out@ == cells_text(alive, self.width as int, i as nat),
            decreases n - i,
        {
            proof {
                reveal_strlit("\n");
                reveal_strlit("█");
                reveal_strlit(" ");
            }
            if i % self.width == 0 {
                out.append("\n");
            }
            if self.data[i].state {
                out.append("█");
            } else {
                out.append(" ");
            }
            assert(out@ =~= cells_text(alive, self.width as int, (i + 1) as nat));
            i += 1;
        }
        assert("\nGENERATION "@ =~= generation_label());
        out.append("\nGENERATION ");
        push_decimal(&mut out, self.generation);
        out
    }
}

} // verus!
