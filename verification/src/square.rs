//! Board cells and their numbering on the wire.
//!
//! A cell is a pair `(file, rank)`, both in `0..8`. On the wire it travels as
//! the single number `file + rank * 8`.
use vstd::prelude::*;

verus! {

/// Number of files, and of ranks, on the board.
pub const BOARD_SIDE: usize = 8;

/// Number of squares on the board.
pub const SQUARE_COUNT: u32 = 64;

/// A move handed from the board's window to the session: the cell a piece
/// leaves and the cell it goes to.
#[derive(Clone, Copy, Debug, PartialEq, Eq)]
pub struct Move_channel {
    pub from: (usize, usize),
    pub to: (usize, usize),
}

/// Whether a cell lies on the board.
pub open spec fn on_board(cell: (usize, usize)) -> bool {
    cell.0 < 8 && cell.1 < 8
}

/// The number of the square at file `x`, rank `y`.
pub open spec fn square_index(x: int, y: int) -> int {
    x + y * 8
}

/// The file of a square.
pub open spec fn square_file(square: int) -> int {
    square % 8
}

/// The rank of a square.
pub open spec fn square_rank(square: int) -> int {
    square / 8
}

/// The square of a cell.
pub open spec fn square_at(cell: (usize, usize)) -> int {
    square_index(cell.0 as int, cell.1 as int)
}

/// The cell of a square.
pub open spec fn cell_at(square: int) -> (usize, usize) {
    (square_file(square) as usize, square_rank(square) as usize)
}

/// Numbering a cell and reading the number back gives the cell again.
pub proof fn lemma_square_of_cell(x: int, y: int)
    requires
        0 <= x < 8,
        0 <= y < 8,
    ensures
        0 <= square_index(x, y) < 64,
        square_file(square_index(x, y)) == x,
        square_rank(square_index(x, y)) == y,
{
}

/// Splitting a square into file and rank and numbering them gives the square
/// again, and both lie on the board.
pub proof fn lemma_cell_of_square(square: int)
    requires
        0 <= square < 64,
    ensures
        0 <= square_file(square) < 8,
        0 <= square_rank(square) < 8,
        square_index(square_file(square), square_rank(square)) == square,
{
}

/// The square number of a cell, or `None` for a cell off the board.
pub fn square_of(cell: (usize, usize)) -> (r: Option<u32>)
    ensures
        on_board(cell) ==> r == Some(square_at(cell) as u32) && square_at(cell) < 64,
        !on_board(cell) ==> r is None,
{
    if cell.0 < BOARD_SIDE && cell.1 < BOARD_SIDE {
        Some((cell.0 + cell.1 * BOARD_SIDE) as u32)
    } else {
        None
    }
}

/// The cell of a square number, or `None` for a number past the board.
pub fn cell_of(square: u32) -> (r: Option<(usize, usize)>)
    ensures
        square < 64 ==> r == Some(cell_at(square as int)) && on_board(cell_at(square as int)),
        square >= 64 ==> r is None,
{
    if square < SQUARE_COUNT {
        Some(((square % 8) as usize, (square / 8) as usize))
    } else {
        None
    }
}

} // verus!
