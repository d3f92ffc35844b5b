//! The grid: a row-major array of cells with fixed dimensions, a generation
//! counter, and the two passes that make up one tick — recomputing every
//! cell's live-neighbor count from the current states, then applying the
//! transition rule to every cell at once.

use vstd::prelude::*;

verus! {

use crate::cell::{alive_cell, dead_cell, next_state, Cell, CellState};
use vstd::arithmetic::div_mod::{
    lemma_fundamental_div_mod, lemma_fundamental_div_mod_converse, lemma_multiply_divide_lt,
};

/// Default decay length: a cell that falls out of the survival rule lingers
/// as `Dying(CYCLES_TO_DIE)`, `Dying(CYCLES_TO_DIE - 1)`, ... before it dies.
pub const CYCLES_TO_DIE: usize = 8;

/// A fixed-size 2D grid of cells in row-major order: the cell at `(x, y)`
/// lives at linear index `y * width + x`. The board is built once and then
/// mutated in place, one tick at a time.
pub struct Board {
    /// Number of completed ticks since construction.
    pub generation: usize,
    pub width: usize,
    pub height: usize,
    /// Decay length handed to every cell that starts dying; fixed at
    /// construction.
    pub cycles_to_die: usize,
    pub cells: Vec<Cell>,
}

/// A coordinate pair lies on the grid. Positions outside are treated as
/// permanently dead: the grid has hard edges, no wraparound.
pub open spec fn in_bounds(width: int, height: int, x: int, y: int) -> bool {
    0 <= x < width && 0 <= y < height
}

/// 1 if `(x, y)` is on the grid and holds an `Alive` cell, else 0.
pub open spec fn alive_at(states: Seq<CellState>, width: int, height: int, x: int, y: int) -> int {
    if in_bounds(width, height, x, y) && states[y * width + x] is Alive {
        1
    } else {
        0
    }
}

/// The number of `Alive` cells among the 8 Moore neighbors of `(x, y)`:
/// the positions offset by `dx, dy ∈ {-1, 0, 1}` with `(dx, dy) ≠ (0, 0)`.
/// Off-grid positions contribute 0.
pub open spec fn spec_neighbor_count(
    states: Seq<CellState>,
    width: int,
    height: int,
    x: int,
    y: int,
) -> int {
    alive_at(states, width, height, x - 1, y - 1) + alive_at(states, width, height, x, y - 1)
        + alive_at(states, width, height, x + 1, y - 1) + alive_at(states, width, height, x - 1, y)
        + alive_at(states, width, height, x + 1, y) + alive_at(states, width, height, x - 1, y + 1)
        + alive_at(states, width, height, x, y + 1) + alive_at(states, width, height, x + 1, y + 1)
}

/// The state sequence one tick later: every cell moves to
/// `next_state(current state, live-neighbor count in the current states)`,
/// all cells judged against the same snapshot.
pub open spec fn spec_next_states(
    states: Seq<CellState>,
    width: int,
    height: int,
    cycles_to_die: usize,
) -> Seq<CellState> {
    Seq::new(
        states.len(),
        |i: int|
            next_state(
                states[i],
                spec_neighbor_count(states, width, height, i % width, i / width),
                cycles_to_die,
            ),
    )
}

/// The seed list contains the coordinate pair `(x, y)`.
pub open spec fn seed_contains(seed: Seq<(usize, usize)>, x: int, y: int) -> bool {
    exists|k: int| 0 <= k < seed.len() && (#[trigger] seed[k]).0 == x && seed[k].1 == y
}

/// A seed coordinate lying outside the grid, reported when construction from
/// a seed list is refused.
#[derive(Clone, Copy, PartialEq, Eq, Structural, Debug)]
pub struct SeedError {
    pub x: usize,
    pub y: usize,
}

/// The coordinates seeded `Alive` by `Board::add_glider_gun`: a Gosper
/// glider gun, which fits any grid at least 37 wide and 10 tall.
pub open spec fn glider_gun_seed() -> Seq<(usize, usize)> {
    seq![
        (25usize, 1usize),
        (23usize, 2usize),
        (25usize, 2usize),
        (13usize, 3usize),
        (14usize, 3usize),
        (21usize, 3usize),
        (22usize, 3usize),
        (35usize, 3usize),
        (36usize, 3usize),
        (12usize, 4usize),
        (16usize, 4usize),
        (21usize, 4usize),
        (22usize, 4usize),
        (35usize, 4usize),
        (36usize, 4usize),
        (1usize, 5usize),
        (2usize, 5usize),
        (11usize, 5usize),
        (17usize, 5usize),
        (21usize, 5usize),
        (22usize, 5usize),
        (1usize, 6usize),
        (2usize, 6usize),
        (11usize, 6usize),
        (15usize, 6usize),
        (17usize, 6usize),
        (18usize, 6usize),
        (23usize, 6usize),
        (25usize, 6usize),
        (11usize, 7usize),
        (17usize, 7usize),
        (25usize, 7usize),
        (12usize, 8usize),
        (16usize, 8usize),
        (13usize, 9usize),
        (14usize, 9usize),
    ]
}

/// Build the glider gun seed as a vector whose view is `glider_gun_seed()`,
/// with every coordinate within a 37-by-10 corner of the grid.
fn glider_gun_seed_vec() -> (v: Vec<(usize, usize)>)
    ensures
        v@ == glider_gun_seed(),
        forall|k: int|
            0 <= k < v@.len() ==> (#[trigger] v@[k]).0 < 37 && v@[k].1 < 10,
{
    let mut v: Vec<(usize, usize)> = Vec::new();
    v.push((25, 1));
    v.push((23, 2));
    v.push((25, 2));
    v.push((13, 3));
    v.push((14, 3));
    v.push((21, 3));
    v.push((22, 3));
    v.push((35, 3));
    v.push((36, 3));
    v.push((12, 4));
    v.push((16, 4));
    v.push((21, 4));
    v.push((22, 4));
    v.push((35, 4));
    v.push((36, 4));
    v.push((1, 5));
    v.push((2, 5));
    v.push((11, 5));
    v.push((17, 5));
    v.push((21, 5));
    v.push((22, 5));
    v.push((1, 6));
    v.push((2, 6));
    v.push((11, 6));
    v.push((15, 6));
    v.push((17, 6));
    v.push((18, 6));
    v.push((23, 6));
    v.push((25, 6));
    v.push((11, 7));
    v.push((17, 7));
    v.push((25, 7));
    v.push((12, 8));
    v.push((16, 8));
    v.push((13, 9));
    v.push((14, 9));
    proof {
        assert(v@ =~= glider_gun_seed());
    }
    v
}

/// Row-major indexing is a bijection between on-grid coordinates and linear
/// indices: `y * width + x` decodes back to `(x, y)` and lies inside the
/// cell array.
proof fn lemma_linear_index(width: int, height: int, x: int, y: int)
    requires
        0 < width,
        in_bounds(width, height, x, y),
    ensures
        (y * width + x) % width == x,
        (y * width + x) / width == y,
        0 <= y * width + x < width * height,
{
    lemma_fundamental_div_mod_converse(y * width + x, width, y, x);
    assert(0 <= y * width + x < width * height) by (nonlinear_arith)
        requires
            0 < width,
            0 <= x < width,
            0 <= y < height,
    ;
}

impl Board {
    /// The board is well formed: the dimensions are positive, fit in `i32`
    /// coordinates, their product fits the address space, the cell array has
    /// exactly `width * height` entries, and every cached neighbor count is
    /// at most 8 (a cell has only 8 Moore neighbors).
    pub open spec fn wf(self) -> bool {
        &&& 1 <= self.width
        &&& 1 <= self.height
        &&& self.width as int <= i32::MAX as int
        &&& self.height as int <= i32::MAX as int
        &&& self.width * self.height <= usize::MAX
        &&& self.cells@.len() == self.width * self.height
        &&& forall|i: int|
            0 <= i < self.cells@.len() ==> (#[trigger] self.cells@[i]).neighbor_count <= 8
    }

    /// The cell states alone, with the cached neighbor counts stripped off.
    pub open spec fn states(self) -> Seq<CellState> {
        self.cells@.map_values(|c: Cell| c.state)
    }

    /// Number of cells on the board.
    pub fn num_cells(&self) -> (n: usize)
        ensures
            n == self.cells@.len(),
    {
        self.cells.len()
    }

    /// The cell at a linear index, for a renderer or test walking the grid.
    pub fn cell_at(&self, index: usize) -> (c: Cell)
        requires
            index < self.cells@.len(),
        ensures
            c == self.cells@[index as int],
    {
        self.cells[index]
    }

    /// Decode a linear index into `(x, y)` grid coordinates:
    /// `x = index mod width`, `y = index div width`.
    pub fn index_to_coordinates(&self, index: usize) -> (r: (i32, i32))
        requires
            self.wf(),
            index < self.width * self.height,
        ensures
            r.0 as int == index as int % self.width as int,
            r.1 as int == index as int / self.width as int,
            in_bounds(self.width as int, self.height as int, r.0 as int, r.1 as int),
    {
        let x = index % self.width;
        let y = index / self.width;
        proof {
            lemma_multiply_divide_lt(index as int, self.width as int, self.height as int);
        }
        (x as i32, y as i32)
    }

    /// Encode `(x, y)` as the linear index `y * width + x` if the pair lies
    /// on the grid, and report absence otherwise — off-grid positions are
    /// not an error, they simply name no cell.
    pub fn coordinates_to_index(&self, x: i32, y: i32) -> (r: Option<usize>)
        requires
            self.wf(),
        ensures
            r matches Some(index) ==> in_bounds(
                self.width as int,
                self.height as int,
                x as int,
                y as int,
            ) && index as int == y as int * self.width as int + x as int && index < self.width
                * self.height,
            in_bounds(self.width as int, self.height as int, x as int, y as int) ==> r is Some,
    {
        if x < 0 || x >= (self.width as i32) {
            return None;
        }
        if y < 0 || y >= (self.height as i32) {
            return None;
        }
        proof {
            lemma_linear_index(self.width as int, self.height as int, x as int, y as int);
        }
        Some((y as usize) * self.width + (x as usize))
    }

    /// 1 if `(x, y)` names an on-grid cell that is currently `Alive`, else 0.
    fn alive_value_at(&self, x: i32, y: i32) -> (r: usize)
        requires
            self.wf(),
        ensures
            r as int == alive_at(
                self.states(),
                self.width as int,
                self.height as int,
                x as int,
                y as int,
            ),
            r <= 1,
    {
        match self.coordinates_to_index(x, y) {
            Some(index) => {
                proof {
                    lemma_linear_index(
                        self.width as int,
                        self.height as int,
                        x as int,
                        y as int,
                    );
                    assert(self.states()[index as int] == self.cells@[index as int].state);
                }
                match self.cells[index].state {
                    CellState::Alive => 1,
                    _ => 0,
                }
            },
            None => 0,
        }
    }

    /// Count the `Alive` cells among the 8 Moore neighbors of the cell at a
    /// linear index, against the current states. Off-grid positions count 0.
    pub fn live_neighbor_count(&self, index: usize) -> (n: usize)
        requires
            self.wf(),
            index < self.width * self.height,
        ensures
            n as int == spec_neighbor_count(
                self.states(),
                self.width as int,
                self.height as int,
                index as int % self.width as int,
                index as int / self.width as int,
            ),
            n <= 8,
    {
        let (x, y) = self.index_to_coordinates(index);
        let mut n: usize = 0;
        n = n + self.alive_value_at(x - 1, y - 1);
        n = n + self.alive_value_at(x, y - 1);
        n = n + self.alive_value_at(x + 1, y - 1);
        n = n + self.alive_value_at(x - 1, y);
        n = n + self.alive_value_at(x + 1, y);
        n = n + self.alive_value_at(x - 1, y + 1);
        n = n + self.alive_value_at(x, y + 1);
        n = n + self.alive_value_at(x + 1, y + 1);
        n
    }

    /// The read pass of a tick: recompute every cell's cached neighbor count
    /// from a snapshot of the current states, before any state changes. No
    /// state is touched, so the result is independent of the order in which
    /// the cells are visited.
    pub fn update_live_neighbor_counts(&mut self)
        requires
            old(self).wf(),
        ensures
            final(self).wf(),
            final(self).width == old(self).width,
            final(self).height == old(self).height,
            final(self).generation == old(self).generation,
            final(self).cycles_to_die == old(self).cycles_to_die,
            final(self).cells@.len() == old(self).cells@.len(),
            final(self).states() == old(self).states(),
            forall|i: int|
                0 <= i < old(self).cells@.len() ==> (#[trigger] final(self).cells@[i]).neighbor_count
                    as int == spec_neighbor_count(
                    old(self).states(),
                    old(self).width as int,
                    old(self).height as int,
                    i % old(self).width as int,
                    i / old(self).width as int,
                ),
    {
        let ghost orig = *self;
        let len = self.cells.len();
        let mut counts: Vec<usize> = Vec::new();
        let mut i: usize = 0;
        while i < len
            invariant
                *self == orig,
                orig.wf(),
                len == orig.cells@.len(),
                i <= len,
                counts@.len() == i as int,
                forall|j: int|
                    0 <= j < i ==> (#[trigger] counts@[j]) as int == spec_neighbor_count(
                        orig.states(),
                        orig.width as int,
                        orig.height as int,
                        j % orig.width as int,
                        j / orig.width as int,
                    ) && counts@[j] <= 8,
            decreases len - i,
        {
            let c = self.live_neighbor_count(i);
            counts.push(c);
            i = i + 1;
        }
        let mut i: usize = 0;
        while i < len
            invariant
                orig.wf(),
                len == orig.cells@.len(),
                counts@.len() == len,
                forall|j: int|
                    0 <= j < len ==> (#[trigger] counts@[j]) as int == spec_neighbor_count(
                        orig.states(),
                        orig.width as int,
                        orig.height as int,
                        j % orig.width as int,
                        j / orig.width as int,
                    ) && counts@[j] <= 8,
                self.width == orig.width,
                self.height == orig.height,
                self.generation == orig.generation,
                self.cycles_to_die == orig.cycles_to_die,
                self.cells@.len() == len,
                i <= len,
                forall|j: int|
                    0 <= j < i ==> #[trigger] self.cells@[j] == (Cell {
                        state: orig.cells@[j].state,
                        neighbor_count: counts@[j],
                    }),
                forall|j: int| i <= j < len ==> #[trigger] self.cells@[j] == orig.cells@[j],
            decreases len - i,
        {
            let state = self.cells[i].state;
            let count = counts[i];
            self.cells.set(i, Cell { state, neighbor_count: count });
            i = i + 1;
        }
        proof {
            assert(self.states() =~= orig.states());
        }
    }

    /// The write pass of a tick: move every cell to the state the transition
    /// rule picks from its current state and its cached neighbor count, all
    /// cells judged against the counts computed before the pass began. The
    /// cached counts themselves are left as they are.
    pub fn step(&mut self)
        requires
            old(self).wf(),
        ensures
            final(self).wf(),
            final(self).width == old(self).width,
            final(self).height == old(self).height,
            final(self).generation == old(self).generation,
            final(self).cycles_to_die == old(self).cycles_to_die,
            final(self).cells@.len() == old(self).cells@.len(),
            forall|i: int|
                0 <= i < old(self).cells@.len() ==> #[trigger] final(self).cells@[i] == (Cell {
                    state: next_state(
                        old(self).cells@[i].state,
                        old(self).cells@[i].neighbor_count as int,
                        old(self).cycles_to_die,
                    ),
                    neighbor_count: old(self).cells@[i].neighbor_count,
                }),
    {
        let ghost orig = *self;
        let len = self.cells.len();
        let mut i: usize = 0;
        while i < len
            invariant
                orig.wf(),
                len == orig.cells@.len(),
                self.width == orig.width,
                self.height == orig.height,
                self.generation == orig.generation,
                self.cycles_to_die == orig.cycles_to_die,
                self.cells@.len() == len,
                i <= len,
                forall|j: int|
                    0 <= j < i ==> #[trigger] self.cells@[j] == (Cell {
                        state: next_state(
                            orig.cells@[j].state,
                            orig.cells@[j].neighbor_count as int,
                            orig.cycles_to_die,
                        ),
                        neighbor_count: orig.cells@[j].neighbor_count,
                    }),
                forall|j: int| i <= j < len ==> #[trigger] self.cells@[j] == orig.cells@[j],
            decreases len - i,
        {
            let c = self.cells[i];
            let next = match c.state {
                CellState::Alive => {
                    if c.neighbor_count < 2 || c.neighbor_count > 3 {
                        CellState::Dying(self.cycles_to_die)
                    } else {
                        CellState::Alive
                    }
                },
                CellState::Dying(cycles_left) => {
                    if c.neighbor_count == 3 {
                        CellState::Alive
                    } else {
                        if cycles_left == 0 {
                            CellState::Dead
                        } else {
                            CellState::Dying(cycles_left - 1)
                        }
                    }
                },
                CellState::Dead => {
                    if c.neighbor_count == 3 {
                        CellState::Alive
                    } else {
                        CellState::Dead
                    }
                },
            };
            self.cells.set(i, Cell { state: next, neighbor_count: c.neighbor_count });
            i = i + 1;
        }
    }

    /// An all-`Dead` board of the given dimensions, at generation 0.
    fn dead_board(width: usize, height: usize, cycles_to_die: usize) -> (b: Board)
        requires
            1 <= width,
            width as int <= i32::MAX as int,
            1 <= height,
            height as int <= i32::MAX as int,
            width * height <= usize::MAX,
        ensures
            b.wf(),
            b.generation == 0,
            b.width == width,
            b.height == height,
            b.cycles_to_die == cycles_to_die,
            b.cells@.len() == width * height,
            forall|i: int| 0 <= i < b.cells@.len() ==> #[trigger] b.cells@[i] == dead_cell(),
    {
        let n = width * height;
        let mut cells: Vec<Cell> = Vec::new();
        let mut i: usize = 0;
        while i < n
            invariant
                i <= n,
                cells@.len() == i as int,
                forall|j: int| 0 <= j < i ==> #[trigger] cells@[j] == dead_cell(),
            decreases n - i,
        {
            cells.push(Cell::dead());
            i = i + 1;
        }
        Board { generation: 0, width, height, cycles_to_die, cells }
    }

    /// Mark the cell at every seed coordinate `Alive` (with a zeroed
    /// neighbor count), leaving every other cell as it was.
    fn mark_alive_all(&mut self, seed: &Vec<(usize, usize)>)
        requires
            old(self).wf(),
            forall|k: int|
                0 <= k < seed@.len() ==> (#[trigger] seed@[k]).0 < old(self).width && seed@[k].1
                    < old(self).height,
        ensures
            final(self).wf(),
            final(self).width == old(self).width,
            final(self).height == old(self).height,
            final(self).generation == old(self).generation,
            final(self).cycles_to_die == old(self).cycles_to_die,
            final(self).cells@.len() == old(self).cells@.len(),
            forall|i: int|
                0 <= i < old(self).cells@.len() ==> #[trigger] final(self).cells@[i] == (if
                    seed_contains(seed@, i % old(self).width as int, i / old(self).width as int) {
                    alive_cell()
                } else {
                    old(self).cells@[i]
                }),
    {
        let ghost orig = *self;
        let len = seed.len();
        let mut k: usize = 0;
        while k < len
            invariant
                orig.wf(),
                len == seed@.len(),
                k <= len,
                forall|j: int|
                    0 <= j < len ==> (#[trigger] seed@[j]).0 < orig.width && seed@[j].1
                        < orig.height,
                self.width == orig.width,
                self.height == orig.height,
                self.generation == orig.generation,
                self.cycles_to_die == orig.cycles_to_die,
                self.cells@.len() == orig.cells@.len(),
                forall|i: int|
                    0 <= i < orig.cells@.len() ==> #[trigger] self.cells@[i] == (if seed_contains(
                        seed@.take(k as int),
                        i % orig.width as int,
                        i / orig.width as int,
                    ) {
                        alive_cell()
                    } else {
                        orig.cells@[i]
                    }),
            decreases len - k,
        {
            let (x, y) = seed[k];
            proof {
                lemma_linear_index(orig.width as int, orig.height as int, x as int, y as int);
            }
            let index = y * self.width + x;
            let ghost prev = *self;
            self.cells.set(index, Cell::alive());
            proof {
                let w = orig.width as int;
                let s = seed@;
                let ki = k as int;
                assert(s.take(ki + 1) =~= s.take(ki).push(s[ki]));
                assert forall|i: int| 0 <= i < orig.cells@.len() implies #[trigger] self.cells@[i]
                    == (if seed_contains(s.take(ki + 1), i % w, i / w) {
                    alive_cell()
                } else {
                    orig.cells@[i]
                }) by {
                    lemma_fundamental_div_mod(i, w);
                    if i == index as int {
                        assert(i % w == x as int && i / w == y as int);
                        assert(s.take(ki + 1)[ki] == s[ki]);
                        assert(seed_contains(s.take(ki + 1), i % w, i / w));
                    } else {
                        assert(self.cells@[i] == prev.cells@[i]);
                        if i % w == x as int && i / w == y as int {
                            assert(i == w * (i / w) + i % w);
                            assert(index as int == (y as int) * w + (x as int));
                            assert(w * (y as int) == (y as int) * w) by (nonlinear_arith);
                            assert(i == index as int);
                        }
                        assert(!(i % w == x as int && i / w == y as int));
                        if seed_contains(s.take(ki), i % w, i / w) {
                            let j = choose|j: int|
                                0 <= j < s.take(ki).len() && (#[trigger] s.take(ki)[j]).0 == i % w
                                    && s.take(ki)[j].1 == i / w;
                            assert(s.take(ki + 1)[j] == s.take(ki)[j]);
                            assert(seed_contains(s.take(ki + 1), i % w, i / w));
                        }
                        if seed_contains(s.take(ki + 1), i % w, i / w) {
                            let j = choose|j: int|
                                0 <= j < s.take(ki + 1).len() && (#[trigger] s.take(ki + 1)[j]).0
                                    == i % w && s.take(ki + 1)[j].1 == i / w;
                            assert(j != ki);
                            assert(s.take(ki)[j] == s.take(ki + 1)[j]);
                            assert(seed_contains(s.take(ki), i % w, i / w));
                        }
                    }
                }
            }
            k = k + 1;
        }
        proof {
            assert(seed@.take(len as int) =~= seed@);
        }
    }

    /// Seed a Gosper glider gun near the top-left corner: every coordinate of
    /// `glider_gun_seed()` becomes `Alive`, every other cell keeps its state.
    pub fn add_glider_gun(&mut self)
        requires
            old(self).wf(),
            old(self).width >= 37,
            old(self).height >= 10,
        ensures
            final(self).wf(),
            final(self).width == old(self).width,
            final(self).height == old(self).height,
            final(self).generation == old(self).generation,
            final(self).cycles_to_die == old(self).cycles_to_die,
            final(self).cells@.len() == old(self).cells@.len(),
            forall|i: int|
                0 <= i < old(self).cells@.len() ==> #[trigger] final(self).cells@[i] == (if
                    seed_contains(
                    glider_gun_seed(),
                    i % old(self).width as int,
                    i / old(self).width as int,
                ) {
                    alive_cell()
                } else {
                    old(self).cells@[i]
                }),
    {
        let seed = glider_gun_seed_vec();
        self.mark_alive_all(&seed);
    }

    /// Build a board from explicit configuration: dimensions, decay length,
    /// and a seed list of coordinates to mark `Alive` on an otherwise dead
    /// grid. A seed coordinate outside the grid is a configuration error:
    /// the first such pair is reported and no board is built.
    pub fn from_seed(
        width: usize,
        height: usize,
        cycles_to_die: usize,
        seed: &Vec<(usize, usize)>,
    ) -> (r: Result<Board, SeedError>)
        requires
            1 <= width,
            width as int <= i32::MAX as int,
            1 <= height,
            height as int <= i32::MAX as int,
            width * height <= usize::MAX,
        ensures
            r is Ok <==> (forall|k: int|
                0 <= k < seed@.len() ==> (#[trigger] seed@[k]).0 < width && seed@[k].1 < height),
            r matches Ok(b) ==> b.wf() && b.generation == 0 && b.width == width && b.height
                == height && b.cycles_to_die == cycles_to_die && b.cells@.len() == width * height
                && (forall|i: int|
                0 <= i < b.cells@.len() ==> #[trigger] b.cells@[i] == (if seed_contains(
                    seed@,
                    i % width as int,
                    i / width as int,
                ) {
                    alive_cell()
                } else {
                    dead_cell()
                })),
            r matches Err(e) ==> exists|k: int|
                0 <= k < seed@.len() && (#[trigger] seed@[k]).0 == e.x && seed@[k].1 == e.y && !(e.x
                    < width && e.y < height) && (forall|j: int|
                    0 <= j < k ==> (#[trigger] seed@[j]).0 < width && seed@[j].1 < height),
    {
        let len = seed.len();
        let mut k: usize = 0;
        while k < len
            invariant
                len == seed@.len(),
                k <= len,
                forall|j: int| 0 <= j < k ==> (#[trigger] seed@[j]).0 < width && seed@[j].1 < height,
            decreases len - k,
        {
            let (x, y) = seed[k];
            if !(x < width && y < height) {
                proof {
                    assert((seed@[k as int]).0 == x && seed@[k as int].1 == y);
                }
                return Err(SeedError { x, y });
            }
            k = k + 1;
        }
        let mut board = Board::dead_board(width, height, cycles_to_die);
        board.mark_alive_all(seed);
        Ok(board)
    }

    /// Build the default preset: a `width`-by-`height` grid holding a Gosper
    /// glider gun, with the default decay length and generation 0. The grid
    /// must be large enough for the gun pattern.
    pub fn new(width: usize, height: usize) -> (b: Board)
        requires
            37 <= width,
            width as int <= i32::MAX as int,
            10 <= height,
            height as int <= i32::MAX as int,
            width * height <= usize::MAX,
        ensures
            b.wf(),
            b.generation == 0,
            b.width == width,
            b.height == height,
            b.cycles_to_die == CYCLES_TO_DIE,
            b.cells@.len() == width * height,
            forall|i: int|
                0 <= i < b.cells@.len() ==> #[trigger] b.cells@[i] == (if seed_contains(
                    glider_gun_seed(),
                    i % width as int,
                    i / width as int,
                ) {
                    alive_cell()
                } else {
                    dead_cell()
                }),
    {
        let mut board = Board::dead_board(width, height, CYCLES_TO_DIE);
        board.add_glider_gun();
        board
    }

    /// Advance the simulation by exactly one tick: bump the generation
    /// counter, recompute every neighbor count from the current states, then
    /// apply the transition rule to every cell simultaneously. The new states
    /// are exactly `spec_next_states` of the old ones — a pure function of
    /// the board before the call.
    pub fn tick(&mut self)
        requires
            old(self).wf(),
            old(self).generation < usize::MAX,
        ensures
            final(self).wf(),
            final(self).width == old(self).width,
            final(self).height == old(self).height,
            final(self).cycles_to_die == old(self).cycles_to_die,
            final(self).generation == old(self).generation + 1,
            final(self).cells@.len() == old(self).cells@.len(),
            final(self).states() == spec_next_states(
                old(self).states(),
                old(self).width as int,
                old(self).height as int,
                old(self).cycles_to_die,
            ),
            forall|i: int|
                0 <= i < old(self).cells@.len() ==> (#[trigger] final(self).cells@[i]).neighbor_count
                    as int == spec_neighbor_count(
                    old(self).states(),
                    old(self).width as int,
                    old(self).height as int,
                    i % old(self).width as int,
                    i / old(self).width as int,
                ),
    {
        let ghost orig = *self;
        self.generation = self.generation + 1;
        self.update_live_neighbor_counts();
        self.step();
        proof {
            assert(self.states() =~= spec_next_states(
                orig.states(),
                orig.width as int,
                orig.height as int,
                orig.cycles_to_die,
            ));
        }
    }
}

} // verus!
