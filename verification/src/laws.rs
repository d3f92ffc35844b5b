//! Laws of the simulation, stated over the spec-level model and proved once
//! and for all: how single cells and small patterns determine neighbor
//! counts, what the transition rule does in each case, and what iterating
//! the tick function yields.

use vstd::prelude::*;

verus! {

use crate::board::{alive_at, in_bounds, spec_neighbor_count, spec_next_states};
use crate::cell::{next_state, CellState};
use vstd::arithmetic::div_mod::{
    lemma_div_pos_is_pos, lemma_fundamental_div_mod, lemma_fundamental_div_mod_converse,
    lemma_mod_bound, lemma_multiply_divide_lt,
};

/// `(a, b)` is one of the 8 Moore neighbors of `(x, y)`: distinct cells at
/// most one step apart in each direction.
pub open spec fn moore_adjacent(x: int, y: int, a: int, b: int) -> bool {
    !(a == x && b == y) && -1 <= a - x <= 1 && -1 <= b - y <= 1
}

/// Decoding a valid linear index gives on-grid coordinates that encode back
/// to the same index.
proof fn lemma_coords_of_index(w: int, h: int, i: int)
    requires
        0 < w,
        0 < h,
        0 <= i < w * h,
    ensures
        0 <= i % w < w,
        0 <= i / w < h,
        i == w * (i / w) + i % w,
{
    lemma_mod_bound(i, w);
    lemma_div_pos_is_pos(i, w);
    lemma_multiply_divide_lt(i, w, h);
    lemma_fundamental_div_mod(i, w);
}

/// Encoding on-grid coordinates gives an index that decodes back to them.
proof fn lemma_index_of_coords(w: int, h: int, x: int, y: int)
    requires
        0 < w,
        in_bounds(w, h, x, y),
    ensures
        (y * w + x) % w == x,
        (y * w + x) / w == y,
        0 <= y * w + x < w * h,
{
    lemma_fundamental_div_mod_converse(y * w + x, w, y, x);
    assert(0 <= y * w + x < w * h) by (nonlinear_arith)
        requires
            0 < w,
            0 <= x < w,
            0 <= y < h,
    ;
}

/// On a grid whose only `Alive` cell sits at `(x, y)`, a position holds an
/// alive cell exactly when it is `(x, y)` itself.
proof fn lemma_alive_at_single(
    states: Seq<CellState>,
    w: int,
    h: int,
    x: int,
    y: int,
    u: int,
    v: int,
)
    requires
        0 < w,
        0 < h,
        states.len() == w * h,
        in_bounds(w, h, x, y),
        forall|j: int|
            0 <= j < states.len() ==> ((#[trigger] states[j]) is Alive <==> j == y * w + x),
    ensures
        alive_at(states, w, h, u, v) == if u == x && v == y {
            1int
        } else {
            0int
        },
{
    lemma_index_of_coords(w, h, x, y);
    if in_bounds(w, h, u, v) {
        lemma_index_of_coords(w, h, u, v);
        let j = v * w + u;
        if j == y * w + x {
            assert(u == x && v == y);
        }
    }
}

/// Neighbor count correctness for a lone live cell: on a grid whose only
/// `Alive` cell sits at `(x, y)`, a cell at `(a, b)` counts exactly 1 live
/// neighbor if it is one of the 8 Moore neighbors of `(x, y)`, and exactly 0
/// otherwise — in particular `(x, y)` itself and every farther cell count 0.
pub proof fn lemma_single_alive_neighbor_counts(
    states: Seq<CellState>,
    w: int,
    h: int,
    x: int,
    y: int,
    a: int,
    b: int,
)
    requires
        0 < w,
        0 < h,
        states.len() == w * h,
        in_bounds(w, h, x, y),
        forall|j: int|
            0 <= j < states.len() ==> ((#[trigger] states[j]) is Alive <==> j == y * w + x),
        in_bounds(w, h, a, b),
    ensures
        spec_neighbor_count(states, w, h, a, b) == if moore_adjacent(x, y, a, b) {
            1int
        } else {
            0int
        },
{
    lemma_alive_at_single(states, w, h, x, y, a - 1, b - 1);
    lemma_alive_at_single(states, w, h, x, y, a, b - 1);
    lemma_alive_at_single(states, w, h, x, y, a + 1, b - 1);
    lemma_alive_at_single(states, w, h, x, y, a - 1, b);
    lemma_alive_at_single(states, w, h, x, y, a + 1, b);
    lemma_alive_at_single(states, w, h, x, y, a - 1, b + 1);
    lemma_alive_at_single(states, w, h, x, y, a, b + 1);
    lemma_alive_at_single(states, w, h, x, y, a + 1, b + 1);
}

/// Edge and corner exclusion: a lone `Alive` cell at the corner `(0, 0)`
/// contributes to the neighbor counts of at most 3 cells — exactly its
/// in-bounds Moore neighbors `(1, 0)`, `(0, 1)` and `(1, 1)` — and every
/// other cell counts 0. Off-grid positions simply contribute nothing.
pub proof fn lemma_corner_alive_counts(states: Seq<CellState>, w: int, h: int, a: int, b: int)
    requires
        0 < w,
        0 < h,
        states.len() == w * h,
        forall|j: int| 0 <= j < states.len() ==> ((#[trigger] states[j]) is Alive <==> j == 0),
        in_bounds(w, h, a, b),
    ensures
        spec_neighbor_count(states, w, h, a, b) == if (a == 1 && b == 0) || (a == 0 && b == 1) || (
        a == 1 && b == 1) {
            1int
        } else {
            0int
        },
{
    lemma_single_alive_neighbor_counts(states, w, h, 0, 0, a, b);
}

/// Birth rule: a `Dead` cell with exactly 3 live neighbors is born `Alive`;
/// with any other count — 2 or 4 included — it stays `Dead`.
pub proof fn lemma_birth_rule(n: int, cycles_to_die: usize)
    ensures
        next_state(CellState::Dead, 3, cycles_to_die) == CellState::Alive,
        n != 3 ==> next_state(CellState::Dead, n, cycles_to_die) == CellState::Dead,
{
}

/// Survival rule: an `Alive` cell with 2 or 3 live neighbors stays `Alive`;
/// with 0, 1, or 4 and more it starts decaying as `Dying(cycles_to_die)`.
pub proof fn lemma_survival_rule(n: int, cycles_to_die: usize)
    ensures
        2 <= n <= 3 ==> next_state(CellState::Alive, n, cycles_to_die) == CellState::Alive,
        n < 2 || n > 3 ==> next_state(CellState::Alive, n, cycles_to_die) == CellState::Dying(
            cycles_to_die,
        ),
{
}

/// Decay and rescue: a `Dying(n)` cell with exactly 3 live neighbors is
/// rescued to `Alive` at once, whatever `n`; otherwise `Dying(n)` with
/// `n > 0` fades to `Dying(n - 1)` and `Dying(0)` turns `Dead`.
pub proof fn lemma_decay_and_rescue(cycles_left: usize, n: int, cycles_to_die: usize)
    ensures
        next_state(CellState::Dying(cycles_left), 3, cycles_to_die) == CellState::Alive,
        n != 3 && cycles_left > 0 ==> next_state(CellState::Dying(cycles_left), n, cycles_to_die)
            == CellState::Dying((cycles_left - 1) as usize),
        n != 3 && cycles_left == 0 ==> next_state(CellState::Dying(cycles_left), n, cycles_to_die)
            == CellState::Dead,
{
}

/// The linear index of `(x + dx, y + dy)` for a 2-by-2 block anchored at
/// `(x, y)`: the four cells `(x, y)`, `(x + 1, y)`, `(x, y + 1)`,
/// `(x + 1, y + 1)`.
pub open spec fn is_block_index(w: int, x: int, y: int, j: int) -> bool {
    ||| j == y * w + x
    ||| j == y * w + x + 1
    ||| j == (y + 1) * w + x
    ||| j == (y + 1) * w + x + 1
}

/// On a grid whose live cells are exactly a 2-by-2 block anchored at
/// `(x, y)`, a position holds an alive cell exactly when it is one of the
/// four block coordinates.
proof fn lemma_alive_at_block(
    states: Seq<CellState>,
    w: int,
    h: int,
    x: int,
    y: int,
    u: int,
    v: int,
)
    requires
        0 < w,
        0 < h,
        states.len() == w * h,
        0 <= x,
        x + 1 < w,
        0 <= y,
        y + 1 < h,
        forall|j: int|
            0 <= j < states.len() ==> (#[trigger] states[j]) == (if is_block_index(w, x, y, j) {
                CellState::Alive
            } else {
                CellState::Dead
            }),
    ensures
        alive_at(states, w, h, u, v) == if (u == x || u == x + 1) && (v == y || v == y + 1) {
            1int
        } else {
            0int
        },
{
    lemma_index_of_coords(w, h, x, y);
    lemma_index_of_coords(w, h, x + 1, y);
    lemma_index_of_coords(w, h, x, y + 1);
    lemma_index_of_coords(w, h, x + 1, y + 1);
    if in_bounds(w, h, u, v) {
        lemma_index_of_coords(w, h, u, v);
        let j = v * w + u;
        assert(y * w + x + 1 == y * w + (x + 1));
        assert((y + 1) * w + x + 1 == (y + 1) * w + (x + 1));
        if j == y * w + x {
            assert(u == x && v == y);
        }
        if j == y * w + (x + 1) {
            assert(u == x + 1 && v == y);
        }
        if j == (y + 1) * w + x {
            assert(u == x && v == y + 1);
        }
        if j == (y + 1) * w + (x + 1) {
            assert(u == x + 1 && v == y + 1);
        }
    }
}

/// Simultaneity on a still life: a 2-by-2 block of `Alive` cells on an
/// otherwise `Dead` grid reproduces itself exactly — each block cell sees 3
/// live neighbors and survives, every dead cell sees at most 2 and stays
/// dead — so the whole grid is unchanged by a tick, and hence by any number
/// of ticks.
pub proof fn lemma_block_still_life(
    states: Seq<CellState>,
    w: int,
    h: int,
    x: int,
    y: int,
    cycles_to_die: usize,
)
    requires
        0 < w,
        0 < h,
        states.len() == w * h,
        0 <= x,
        x + 1 < w,
        0 <= y,
        y + 1 < h,
        forall|j: int|
            0 <= j < states.len() ==> (#[trigger] states[j]) == (if is_block_index(w, x, y, j) {
                CellState::Alive
            } else {
                CellState::Dead
            }),
    ensures
        spec_next_states(states, w, h, cycles_to_die) == states,
{
    let next = spec_next_states(states, w, h, cycles_to_die);
    assert forall|i: int| 0 <= i < states.len() implies next[i] == states[i] by {
        lemma_coords_of_index(w, h, i);
        let a = i % w;
        let b = i / w;
        lemma_alive_at_block(states, w, h, x, y, a - 1, b - 1);
        lemma_alive_at_block(states, w, h, x, y, a, b - 1);
        lemma_alive_at_block(states, w, h, x, y, a + 1, b - 1);
        lemma_alive_at_block(states, w, h, x, y, a - 1, b);
        lemma_alive_at_block(states, w, h, x, y, a + 1, b);
        lemma_alive_at_block(states, w, h, x, y, a - 1, b + 1);
        lemma_alive_at_block(states, w, h, x, y, a, b + 1);
        lemma_alive_at_block(states, w, h, x, y, a + 1, b + 1);
        lemma_index_of_coords(w, h, x, y);
        lemma_index_of_coords(w, h, x + 1, y);
        lemma_index_of_coords(w, h, x, y + 1);
        lemma_index_of_coords(w, h, x + 1, y + 1);
        assert(w * b == b * w) by (nonlinear_arith);
        if is_block_index(w, x, y, i) {
            assert((a == x || a == x + 1) && (b == y || b == y + 1));
            assert(spec_neighbor_count(states, w, h, a, b) == 3);
        } else {
            assert(!((a == x || a == x + 1) && (b == y || b == y + 1)));
            assert(spec_neighbor_count(states, w, h, a, b) <= 2);
        }
    }
    assert(next =~= states);
}

/// A still life stays put for any number of ticks: iterating the tick
/// function over a 2-by-2 block on an otherwise dead grid returns the very
/// same states, however many ticks are run.
pub proof fn lemma_block_still_life_forever(
    states: Seq<CellState>,
    w: int,
    h: int,
    x: int,
    y: int,
    cycles_to_die: usize,
    n: nat,
)
    requires
        0 < w,
        0 < h,
        states.len() == w * h,
        0 <= x,
        x + 1 < w,
        0 <= y,
        y + 1 < h,
        forall|j: int|
            0 <= j < states.len() ==> (#[trigger] states[j]) == (if is_block_index(w, x, y, j) {
                CellState::Alive
            } else {
                CellState::Dead
            }),
    ensures
        spec_run(states, w, h, cycles_to_die, n) == states,
    decreases n,
{
    if n > 0 {
        lemma_block_still_life_forever(states, w, h, x, y, cycles_to_die, (n - 1) as nat);
        lemma_block_still_life(states, w, h, x, y, cycles_to_die);
    }
}

/// The generation counter after `n` further ticks starting from `g`: each
/// tick adds exactly one, as `Board::tick` ensures.
pub open spec fn generation_after(g: int, n: nat) -> int
    decreases n,
{
    if n == 0 {
        g
    } else {
        generation_after(g, (n - 1) as nat) + 1
    }
}

/// Generation counter law: after `n` ticks the counter reads exactly `n`
/// more than it did — so a fresh board, which starts at 0, reads `n` after
/// `n` ticks.
pub proof fn lemma_generation_counter(g: int, n: nat)
    ensures
        generation_after(g, n) == g + n,
    decreases n,
{
    if n > 0 {
        lemma_generation_counter(g, (n - 1) as nat);
    }
}

/// The cell states after `n` ticks: `spec_next_states` iterated `n` times —
/// the successor function that `Board::tick` ensures, applied repeatedly.
pub open spec fn spec_run(
    states: Seq<CellState>,
    w: int,
    h: int,
    cycles_to_die: usize,
    n: nat,
) -> Seq<CellState>
    decreases n,
{
    if n == 0 {
        states
    } else {
        spec_next_states(spec_run(states, w, h, cycles_to_die, (n - 1) as nat), w, h, cycles_to_die)
    }
}

/// Determinism: the state after a tick is a pure function of the state
/// before it — `Board::tick` ensures the new states equal `spec_next_states`
/// of the old — so two identical boards run for the same number of ticks
/// through identical state sequences.
pub proof fn lemma_run_deterministic(
    s1: Seq<CellState>,
    s2: Seq<CellState>,
    w: int,
    h: int,
    cycles_to_die: usize,
    n: nat,
)
    requires
        s1 == s2,
    ensures
        spec_run(s1, w, h, cycles_to_die, n) == spec_run(s2, w, h, cycles_to_die, n),
{
}

} // verus!
