//! Linear cell indices on a `side × side` grid stored row by row, and the
//! step rule that moves an index one cell in a direction with wraparound.
use vstd::prelude::*;

verus! {

/// The four directions in which the actor can step.
///
/// `Left` and `Right` are the two horizontal opposites: `Left` steps to the
/// next higher index in the row and `Right` to the next lower one.
#[derive(Clone, Copy, Debug, PartialEq, Eq, Structural)]
pub enum Direction {
    Up,
    Left,
    Down,
    Right,
}

/// A grid side that the executable index arithmetic can handle: at least one
/// cell per row, and every intermediate value of a step fits in an `i32`.
pub open spec fn valid_side(side: int) -> bool {
    1 <= side && side * side + 2 * side <= i32::MAX
}

/// Number of cells of the grid.
pub open spec fn total_cells(side: int) -> int {
    side * side
}

/// Every index that stepping can ever produce from index 0.
///
/// A downward step from the first column of the last row lands on
/// `side * side` (the wrap test is a strict `>`), and horizontal steps from
/// there stay in that extra row, so the reachable indices are
/// `[0, side * side + side)`.
pub open spec fn reach_bound(side: int) -> int {
    side * side + side
}

/// The index one step from `current` in direction `d`.
pub open spec fn step(side: int, current: int, d: Direction) -> int {
    let total = total_cells(side);
    match d {
        Direction::Down => if current + side > total {
            current + side - total
        } else {
            current + side
        },
        Direction::Up => if current - side < 0 {
            current - side + total
        } else {
            current - side
        },
        Direction::Left => if (current + 1) % side == 0 {
            current - side + 1
        } else {
            current + 1
        },
        Direction::Right => if current % side == 0 || current - 1 < 0 {
            current + side - 1
        } else {
            current - 1
        },
    }
}

/// Computes the index one step from `current_index` in `direction` on a grid
/// with `grid_side` cells per row.
pub fn next_index(grid_side: i32, current_index: i32, direction: Direction) -> (r: i32)
    requires
        valid_side(grid_side as int),
        0 <= current_index < reach_bound(grid_side as int),
    ensures
        r == step(grid_side as int, current_index as int, direction),
        0 <= r < reach_bound(grid_side as int),
{
    proof {
        lemma_step_in_reach(grid_side as int, current_index as int, direction);
    }
    assert(grid_side * grid_side + 2 * grid_side <= i32::MAX);
    let total_squares = grid_side * grid_side;
    match direction {
        Direction::Down => {
            let future = current_index + grid_side;
            if future > total_squares {
                future - total_squares
            } else {
                future
            }
        },
        Direction::Left => {
            let future = current_index + 1;
            if future % grid_side == 0 {
                current_index - grid_side + 1
            } else {
                future
            }
        },
        Direction::Right => {
            let future = current_index - 1;
            if current_index % grid_side == 0 {
                current_index + grid_side - 1
            } else if future < 0 {
                current_index + grid_side - 1
            } else {
                future
            }
        },
        Direction::Up => {
            let future = current_index - grid_side;
            if future < 0 {
                future + total_squares
            } else {
                future
            }
        },
    }
}

/// Tells whether `index` occurs in `positions`.
pub fn contains_index(positions: &Vec<i32>, index: i32) -> (r: bool)
    ensures
        r == positions@.contains(index),
{
    let mut i: usize = 0;
    while i < positions.len()
        invariant
            i <= positions@.len(),
            forall|j: int| 0 <= j < i ==> positions@[j] != index,
        decreases positions@.len() - i,
    {
        if positions[i] == index {
            return true;
        }
        i += 1;
    }
    false
}

/// Stepping from any reachable index yields a reachable index.
pub proof fn lemma_step_in_reach(side: int, current: int, d: Direction)
    requires
        side >= 1,
        0 <= current < reach_bound(side),
    ensures
        0 <= step(side, current, d) < reach_bound(side),
{
    assert(side * side >= side) by (nonlinear_arith)
        requires side >= 1;
    match d {
        Direction::Left => {
            if (current + 1) % side == 0 {
                vstd::arithmetic::div_mod::lemma_fundamental_div_mod(current + 1, side);
                let q = (current + 1) / side;
                assert(current + 1 == side * q);
                assert(q >= 1) by (nonlinear_arith)
                    requires current + 1 == side * q, side >= 1, current >= 0;
                assert(side * q >= side) by (nonlinear_arith)
                    requires q >= 1, side >= 1;
            } else {
                assert((side * side + side) % side == 0) by (nonlinear_arith)
                    requires side >= 1;
            }
        },
        Direction::Right => {
            if current % side == 0 {
                vstd::arithmetic::div_mod::lemma_fundamental_div_mod(current, side);
                let q = current / side;
                assert(current == side * q);
                assert(q <= side) by (nonlinear_arith)
                    requires current == side * q, side >= 1, current < side * side + side;
                assert(side * q <= side * side) by (nonlinear_arith)
                    requires q <= side, side >= 1;
            }
        },
        _ => {},
    }
}

/// Every step from a cell of the grid stays on the grid, except the one
/// downward step from the first column of the last row, which lands on
/// `side * side`.
pub proof fn lemma_step_in_grid(side: int, current: int, d: Direction)
    requires
        side >= 2,
        0 <= current < total_cells(side),
        !(d == Direction::Down && current == total_cells(side) - side),
    ensures
        0 <= step(side, current, d) < total_cells(side),
{
    assert(side * side >= side) by (nonlinear_arith)
        requires side >= 1;
    match d {
        Direction::Left => {
            if (current + 1) % side == 0 {
                vstd::arithmetic::div_mod::lemma_fundamental_div_mod(current + 1, side);
                let q = (current + 1) / side;
                assert(q >= 1) by (nonlinear_arith)
                    requires current + 1 == side * q, side >= 1, current >= 0;
                assert(side * q >= side) by (nonlinear_arith)
                    requires q >= 1, side >= 1;
            } else {
                assert((side * side) % side == 0) by (nonlinear_arith)
                    requires side >= 1;
            }
        },
        Direction::Right => {
            if current % side == 0 {
                vstd::arithmetic::div_mod::lemma_fundamental_div_mod(current, side);
                let q = current / side;
                assert(q < side) by (nonlinear_arith)
                    requires current == side * q, side >= 1, current < side * side;
                assert(side * q <= side * side - side) by (nonlinear_arith)
                    requires q < side, side >= 1;
            }
        },
        _ => {},
    }
}

/// A downward step from the last row (any column but the first) wraps to
/// the same column of the first row.
pub proof fn lemma_down_wraps_to_first_row(side: int, col: int)
    requires
        side >= 2,
        1 <= col < side,
    ensures
        step(side, (side - 1) * side + col, Direction::Down) == col,
{
    assert((side - 1) * side + side == side * side) by (nonlinear_arith);
}

/// A `Left` step from the last column of a row wraps to the first column of
/// the same row.
pub proof fn lemma_left_wraps_within_row(side: int, row: int)
    requires
        side >= 2,
        0 <= row < side,
    ensures
        step(side, row * side + side - 1, Direction::Left) == row * side,
{
    assert(row * side + side - 1 + 1 == (row + 1) * side) by (nonlinear_arith);
    vstd::arithmetic::div_mod::lemma_mod_multiples_basic(row + 1, side);
}

/// A `Right` step from the first column of a row wraps to the last column of
/// the same row.
pub proof fn lemma_right_wraps_within_row(side: int, row: int)
    requires
        side >= 2,
        0 <= row < side,
    ensures
        step(side, row * side, Direction::Right) == row * side + side - 1,
{
    vstd::arithmetic::div_mod::lemma_mod_multiples_basic(row, side);
}

} // verus!
