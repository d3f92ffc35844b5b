use life::board::Board;
use life::cell::{Cell, CellState};

fn board_from(width: usize, height: usize, cycles_to_die: usize, seed: &[(usize, usize)]) -> Board {
    let seed: Vec<(usize, usize)> = seed.to_vec();
    match Board::from_seed(width, height, cycles_to_die, &seed) {
        Ok(b) => b,
        Err(e) => panic!("seed coordinate ({}, {}) is out of bounds", e.x, e.y),
    }
}

fn state_at(board: &Board, x: usize, y: usize) -> CellState {
    board.cell_at(y * board.width + x).state
}

fn count_at(board: &Board, x: usize, y: usize) -> usize {
    board.cell_at(y * board.width + x).neighbor_count
}

fn states_of(board: &Board) -> Vec<CellState> {
    let mut states: Vec<CellState> = Vec::new();
    let mut i: usize = 0;
    while i < board.num_cells() {
        states.push(board.cell_at(i).state);
        i += 1;
    }
    states
}

#[test]
fn cell_constructors() {
    let dead = Cell::dead();
    assert!(dead.state == CellState::Dead);
    assert_eq!(dead.neighbor_count, 0);
    let alive = Cell::alive();
    assert!(alive.state == CellState::Alive);
    assert_eq!(alive.neighbor_count, 0);
}

#[test]
fn neighbor_counts_single_interior_cell() {
    let mut board = board_from(5, 5, 8, &[(2, 2)]);
    board.update_live_neighbor_counts();
    for y in 0usize..5 {
        for x in 0usize..5 {
            let adjacent = x.abs_diff(2) <= 1 && y.abs_diff(2) <= 1 && (x, y) != (2, 2);
            let expected: usize = if adjacent { 1 } else { 0 };
            assert_eq!(count_at(&board, x, y), expected, "at ({}, {})", x, y);
        }
    }
}

#[test]
fn neighbor_counts_corner_cell() {
    let mut board = board_from(4, 4, 8, &[(0, 0)]);
    board.update_live_neighbor_counts();
    for y in 0usize..4 {
        for x in 0usize..4 {
            let touched = (x, y) == (1, 0) || (x, y) == (0, 1) || (x, y) == (1, 1);
            let expected: usize = if touched { 1 } else { 0 };
            assert_eq!(count_at(&board, x, y), expected, "at ({}, {})", x, y);
        }
    }
}

#[test]
fn birth_rule_three_neighbors() {
    let mut board = board_from(4, 4, 8, &[(0, 0), (1, 0), (2, 0)]);
    assert!(state_at(&board, 1, 1) == CellState::Dead);
    board.tick();
    assert!(state_at(&board, 1, 1) == CellState::Alive);
}

#[test]
fn birth_rule_two_neighbors() {
    let mut board = board_from(4, 4, 8, &[(0, 0), (1, 0)]);
    board.tick();
    assert!(state_at(&board, 1, 1) == CellState::Dead);
}

#[test]
fn birth_rule_four_neighbors() {
    let mut board = board_from(4, 4, 8, &[(0, 0), (1, 0), (2, 0), (0, 1)]);
    board.tick();
    assert!(state_at(&board, 1, 1) == CellState::Dead);
}

#[test]
fn survival_rule_two_neighbors() {
    let mut board = board_from(4, 4, 8, &[(0, 0), (1, 0), (2, 0)]);
    board.tick();
    assert!(state_at(&board, 1, 0) == CellState::Alive);
}

#[test]
fn survival_rule_three_neighbors() {
    let mut board = board_from(4, 4, 8, &[(1, 1), (2, 1), (1, 2), (2, 2)]);
    board.tick();
    assert!(state_at(&board, 1, 1) == CellState::Alive);
}

#[test]
fn survival_rule_no_neighbors() {
    let mut board = board_from(5, 5, 8, &[(2, 2)]);
    board.tick();
    assert!(state_at(&board, 2, 2) == CellState::Dying(8));
}

#[test]
fn survival_rule_one_neighbor() {
    let mut board = board_from(5, 5, 6, &[(1, 1), (2, 1)]);
    board.tick();
    assert!(state_at(&board, 1, 1) == CellState::Dying(6));
    assert!(state_at(&board, 2, 1) == CellState::Dying(6));
}

#[test]
fn survival_rule_four_neighbors() {
    let mut board = board_from(5, 5, 8, &[(2, 2), (2, 1), (1, 2), (3, 2), (2, 3)]);
    board.tick();
    assert!(state_at(&board, 2, 2) == CellState::Dying(8));
}

#[test]
fn decay_counts_down_to_dead() {
    let mut board = board_from(5, 5, 2, &[(2, 2)]);
    board.tick();
    assert!(state_at(&board, 2, 2) == CellState::Dying(2));
    board.tick();
    assert!(state_at(&board, 2, 2) == CellState::Dying(1));
    board.tick();
    assert!(state_at(&board, 2, 2) == CellState::Dying(0));
    board.tick();
    assert!(state_at(&board, 2, 2) == CellState::Dead);
    board.tick();
    assert!(state_at(&board, 2, 2) == CellState::Dead);
}

#[test]
fn rescue_interrupts_decay() {
    // A horizontal line of three. After one tick the ends are Dying and the
    // vertical line of three stands; after the second tick each former end
    // sees exactly 3 live neighbors and is rescued back to Alive.
    let mut board = board_from(5, 5, 5, &[(1, 2), (2, 2), (3, 2)]);
    board.tick();
    assert!(state_at(&board, 1, 2) == CellState::Dying(5));
    assert!(state_at(&board, 3, 2) == CellState::Dying(5));
    assert!(state_at(&board, 2, 1) == CellState::Alive);
    assert!(state_at(&board, 2, 2) == CellState::Alive);
    assert!(state_at(&board, 2, 3) == CellState::Alive);
    board.tick();
    assert!(state_at(&board, 1, 2) == CellState::Alive);
    assert!(state_at(&board, 3, 2) == CellState::Alive);
}

#[test]
fn block_still_life_is_stable() {
    let mut board = board_from(4, 4, 8, &[(1, 1), (2, 1), (1, 2), (2, 2)]);
    let initial = states_of(&board);
    for _ in 0..5 {
        board.tick();
        assert_eq!(states_of(&board), initial);
    }
}

#[test]
fn generation_counts_ticks() {
    let mut board = board_from(5, 5, 8, &[(2, 2)]);
    assert_eq!(board.generation, 0);
    for n in 1usize..=7 {
        board.tick();
        assert_eq!(board.generation, n);
    }
}

#[test]
fn identical_boards_run_identically() {
    let seed = [(1, 2), (2, 2), (3, 2), (3, 1)];
    let mut a = board_from(6, 6, 3, &seed);
    let mut b = board_from(6, 6, 3, &seed);
    for _ in 0..10 {
        a.tick();
        b.tick();
        assert_eq!(states_of(&a), states_of(&b));
        assert_eq!(a.generation, b.generation);
    }
}

#[test]
fn from_seed_rejects_out_of_bounds() {
    let seed: Vec<(usize, usize)> = vec![(1, 1), (5, 1), (0, 9)];
    match Board::from_seed(5, 5, 8, &seed) {
        Ok(_) => panic!("a seed outside the grid must be refused"),
        Err(e) => {
            assert_eq!(e.x, 5);
            assert_eq!(e.y, 1);
        }
    }
}

#[test]
fn new_board_holds_glider_gun() {
    let board = Board::new(40, 12);
    assert_eq!(board.generation, 0);
    assert_eq!(board.width, 40);
    assert_eq!(board.height, 12);
    assert_eq!(board.num_cells(), 480);
    assert!(state_at(&board, 25, 1) == CellState::Alive);
    assert!(state_at(&board, 1, 5) == CellState::Alive);
    assert!(state_at(&board, 36, 4) == CellState::Alive);
    assert!(state_at(&board, 0, 0) == CellState::Dead);
    let mut alive: usize = 0;
    for i in 0..board.num_cells() {
        if board.cell_at(i).state == CellState::Alive {
            alive += 1;
        }
    }
    assert_eq!(alive, 36);
}

#[test]
fn index_coordinate_round_trip() {
    let board = board_from(7, 5, 8, &[]);
    assert_eq!(board.index_to_coordinates(23), (2, 3));
    assert_eq!(board.index_to_coordinates(0), (0, 0));
    assert_eq!(board.index_to_coordinates(34), (6, 4));
    assert_eq!(board.coordinates_to_index(2, 3), Some(23));
    assert_eq!(board.coordinates_to_index(0, 0), Some(0));
    assert_eq!(board.coordinates_to_index(-1, 0), None);
    assert_eq!(board.coordinates_to_index(0, -1), None);
    assert_eq!(board.coordinates_to_index(7, 0), None);
    assert_eq!(board.coordinates_to_index(0, 5), None);
}

#[test]
fn update_preserves_states() {
    let mut board = board_from(5, 5, 8, &[(1, 1), (2, 2)]);
    let before = states_of(&board);
    board.update_live_neighbor_counts();
    assert_eq!(states_of(&board), before);
}

#[test]
fn live_neighbor_count_matches_update() {
    let mut board = board_from(5, 5, 8, &[(0, 0), (4, 4), (2, 2), (2, 3)]);
    let mut expected: Vec<usize> = Vec::new();
    for i in 0..board.num_cells() {
        expected.push(board.live_neighbor_count(i));
    }
    board.update_live_neighbor_counts();
    for i in 0..board.num_cells() {
        assert_eq!(board.cell_at(i).neighbor_count, expected[i]);
    }
}
