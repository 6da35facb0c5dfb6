//! The 4x4 grid: where a token lands and who has won.
//!
//! Cells are addressed by a flat index `column + 4 * row`, with row 0 at the
//! bottom, so column `c` owns the cells `c`, `c + 4`, `c + 8` and `c + 12`
//! from the bottom up.

use crate::rng::{flip, pending_flip, pending_flips};
use crate::tile::Tile;
use rand::rngs::StdRng;
use vstd::prelude::*;

verus! {

/// Number of columns, and of rows.
pub const SIDE: usize = 4;

/// Number of cells.
pub const CELLS: usize = 16;

/// Why a placement was refused.
#[derive(Debug, Clone, Copy, PartialEq, Eq, Structural)]
pub enum MoveError {
    /// The topmost cell of the column is taken.
    ColumnFull,
    /// The game has already ended.
    GameOver,
}

/// The mathematical content of a [`Board`].
#[verifier::ext_equal]
pub struct BoardView {
    /// The sixteen cells by flat index.
    pub cells: Seq<Tile>,
    /// `None` while the game is open, `Some(Tile::Empty)` for a draw,
    /// otherwise the team that won.
    pub winner: Option<Tile>,
}

/// The cells of an empty grid.
pub open spec fn empty_cells() -> Seq<Tile> {
    Seq::new(CELLS as nat, |i: int| Tile::Empty)
}

/// An empty grid with the game open.
pub open spec fn empty_view() -> BoardView {
    BoardView { cells: empty_cells(), winner: None }
}

/// The team that owns the line `start`, `start + step`, `start + 2 step`,
/// `start + 3 step`, if all four cells hold the same team.
pub open spec fn line_owner(cells: Seq<Tile>, start: int, step: int) -> Option<Tile> {
    let t = cells[start];
    if t != Tile::Empty && cells[start + step] == t && cells[start + 2 * step] == t && cells[start
        + 3 * step] == t {
        Some(t)
    } else {
        None
    }
}

/// The first of two findings that is present.
pub open spec fn first_of(a: Option<Tile>, b: Option<Tile>) -> Option<Tile> {
    if a is Some {
        a
    } else {
        b
    }
}

/// Owner of a diagonal: the rising one (0, 5, 10, 15) is looked at before
/// the falling one (3, 6, 9, 12).
pub open spec fn diagonal_owner(cells: Seq<Tile>) -> Option<Tile> {
    first_of(line_owner(cells, 0, 5), line_owner(cells, 3, 3))
}

/// Owner of row `row`: the cells `4 row` to `4 row + 3`.
pub open spec fn row_line(cells: Seq<Tile>, row: int) -> Option<Tile> {
    line_owner(cells, 4 * row, 1)
}

/// Owner of column `column`: the cells `column`, `column + 4`,
/// `column + 8`, `column + 12`.
pub open spec fn column_line(cells: Seq<Tile>, column: int) -> Option<Tile> {
    line_owner(cells, column, 4)
}

/// Owner of the first complete row, from the top row down to the bottom row.
pub open spec fn row_owner(cells: Seq<Tile>) -> Option<Tile> {
    first_of(
        row_line(cells, 3),
        first_of(row_line(cells, 2), first_of(row_line(cells, 1), row_line(cells, 0))),
    )
}

/// Owner of the first complete column, from column 0 to column 3.
pub open spec fn column_owner(cells: Seq<Tile>) -> Option<Tile> {
    first_of(
        column_line(cells, 0),
        first_of(column_line(cells, 1), first_of(column_line(cells, 2), column_line(cells, 3))),
    )
}

/// Owner of the first complete line: diagonals, then rows from the top one
/// down, then columns from left to right.
pub open spec fn line_winner(cells: Seq<Tile>) -> Option<Tile> {
    first_of(diagonal_owner(cells), first_of(row_owner(cells), column_owner(cells)))
}

/// No cell is empty.
pub open spec fn is_full(cells: Seq<Tile>) -> bool {
    forall|i: int| 0 <= i < cells.len() ==> cells[i] != Tile::Empty
}

/// What the cells alone say about the game: a team that owns a line has
/// won; failing that, a full grid is a draw, written `Some(Tile::Empty)`;
/// failing that, the game is open.
pub open spec fn outcome(cells: Seq<Tile>) -> Option<Tile> {
    if line_winner(cells) is Some {
        line_winner(cells)
    } else if is_full(cells) {
        Some(Tile::Empty)
    } else {
        None
    }
}

/// What a verdict means: a team has won only if it owns a diagonal, a row
/// or a column; a draw is a full grid on which nobody owns a line; and the
/// game is open only while some cell is empty.
pub proof fn lemma_outcome_meaning(cells: Seq<Tile>)
    requires
        cells.len() == CELLS,
    ensures
        match outcome(cells) {
            Some(Tile::Empty) => is_full(cells) && line_winner(cells) is None,
            Some(team) => {
                ||| diagonal_owner(cells) == Some(team)
                ||| exists|row: int| 0 <= row < 4 && #[trigger] row_line(cells, row) == Some(team)
                ||| exists|column: int|
                    0 <= column < 4 && #[trigger] column_line(cells, column) == Some(team)
            },
            None => !is_full(cells) && line_winner(cells) is None,
        },
{
}

/// The cell of `column` on `row`.
pub open spec fn cell_at(cells: Seq<Tile>, column: int, row: int) -> Tile {
    cells[column + 4 * row]
}

/// The row on which a token dropped into `column` comes to rest: the lowest
/// row whose cell in that column is empty. Meaningful while the topmost cell
/// of the column is empty.
pub open spec fn landing_row(cells: Seq<Tile>, column: int) -> int {
    if cells[column] == Tile::Empty {
        0
    } else if cells[column + 4] == Tile::Empty {
        1
    } else if cells[column + 8] == Tile::Empty {
        2
    } else {
        3
    }
}

/// A token lands on an empty cell with nothing empty below it.
pub proof fn lemma_landing_row_is_lowest(cells: Seq<Tile>, column: int)
    requires
        cells.len() == CELLS,
        0 <= column < SIDE,
        cells[column + 12] == Tile::Empty,
    ensures
        0 <= landing_row(cells, column) < 4,
        cell_at(cells, column, landing_row(cells, column)) == Tile::Empty,
        forall|row: int|
            0 <= row < landing_row(cells, column) ==> #[trigger] cell_at(cells, column, row)
                != Tile::Empty,
{
}

/// The answer to an attempt to drop a token into `column`: a column whose
/// topmost cell is taken is full, whether or not the game has ended; an
/// ended game takes no token; anything else is accepted.
pub open spec fn place_result(v: BoardView, column: int) -> Result<(), MoveError> {
    if v.cells[column + 12] != Tile::Empty {
        Err(MoveError::ColumnFull)
    } else if v.winner is Some {
        Err(MoveError::GameOver)
    } else {
        Ok(())
    }
}

/// The board after an attempt to drop `tile` into `column`: unchanged if
/// the attempt is refused; otherwise the token rests on the landing row and
/// the verdict is recomputed from the cells.
pub open spec fn after_place(v: BoardView, tile: Tile, column: int) -> BoardView {
    if place_result(v, column) is Ok {
        let cells = v.cells.update(column + 4 * landing_row(v.cells, column), tile);
        BoardView { cells, winner: outcome(cells) }
    } else {
        v
    }
}

/// Number of cells that are not empty.
pub open spec fn filled_count(cells: Seq<Tile>) -> nat
    decreases cells.len(),
{
    if cells.len() == 0 {
        0
    } else {
        filled_count(cells.drop_last()) + if cells.last() != Tile::Empty {
            1nat
        } else {
            0nat
        }
    }
}

/// There are never more filled cells than cells.
pub proof fn lemma_filled_count_bounded(cells: Seq<Tile>)
    ensures
        filled_count(cells) <= cells.len(),
    decreases cells.len(),
{
    if cells.len() > 0 {
        lemma_filled_count_bounded(cells.drop_last());
    }
}

/// Filling one empty cell raises the number of filled cells by one.
pub proof fn lemma_filled_count_update(cells: Seq<Tile>, index: int, tile: Tile)
    requires
        0 <= index < cells.len(),
        cells[index] == Tile::Empty,
        tile != Tile::Empty,
    ensures
        filled_count(cells.update(index, tile)) == filled_count(cells) + 1,
    decreases cells.len(),
{
    let after = cells.update(index, tile);
    if index == cells.len() - 1 {
        assert(after.drop_last() =~= cells.drop_last());
    } else {
        assert(after.drop_last() =~= cells.drop_last().update(index, tile));
        lemma_filled_count_update(cells.drop_last(), index, tile);
    }
}

/// The cells that sixteen coin flips deal: cell `i` goes to the team of
/// flip `i`.
pub open spec fn dealt_cells(flips: Seq<bool>) -> Seq<Tile> {
    Seq::new(CELLS as nat, |i: int| Tile::of_flip(flips[i]))
}

/// A grid without an empty cell has a verdict.
pub proof fn lemma_full_is_decided(cells: Seq<Tile>)
    requires
        is_full(cells),
    ensures
        outcome(cells) is Some,
{
}

/// The grid together with the verdict on the game.
#[derive(Debug, Clone, Copy, PartialEq, Eq)]
pub struct Board {
    cells: [Tile; CELLS],
    winner: Option<Tile>,
}

impl View for Board {
    type V = BoardView;

    closed spec fn view(&self) -> BoardView {
        BoardView { cells: self.cells@, winner: self.winner }
    }
}

impl Board {
    /// Every board has exactly sixteen cells.
    pub proof fn lemma_sixteen_cells(self)
        ensures
            self@.cells.len() == CELLS,
    {
    }

    /// An empty grid with the game open.
    pub fn new() -> (b: Board)
        ensures
            b@ == empty_view(),
    {
        let e = Tile::Empty;
        let b = Board { cells: [e, e, e, e, e, e, e, e, e, e, e, e, e, e, e, e], winner: None };
        assert(b@.cells =~= empty_cells());
        b
    }

    /// Drops a token of `tile` into `column`. A column whose topmost cell is
    /// taken refuses it with `ColumnFull`, and an ended game with
    /// `GameOver`; either way the board stays exactly as it was. Otherwise
    /// the token comes to rest on the lowest empty cell of the column and
    /// the verdict is recomputed.
    pub fn place(&mut self, tile: Tile, column: usize) -> (r: Result<(), MoveError>)
        requires
            tile != Tile::Empty,
            column < SIDE,
        ensures
            r == place_result(old(self)@, column as int),
            final(self)@ == after_place(old(self)@, tile, column as int),
            r is Err ==> *final(self) == *old(self),
            old(self)@.cells[column + 12] != Tile::Empty ==> r == Err::<(), MoveError>(
                MoveError::ColumnFull,
            ),
            old(self)@.cells[column + 12] == Tile::Empty && old(self)@.winner is Some ==> r
                == Err::<(), MoveError>(MoveError::GameOver),
            r is Ok ==> filled_count(final(self)@.cells) == filled_count(old(self)@.cells) + 1,
            r is Ok ==> final(self)@.winner == outcome(final(self)@.cells),
            forall|i: int|
                0 <= i < CELLS && old(self)@.cells[i] != Tile::Empty ==> final(self)@.cells[i]
                    == old(self)@.cells[i],
    {
        if self.cells[column + 3 * SIDE] != Tile::Empty {
            return Err(MoveError::ColumnFull);
        }
        if self.winner.is_some() {
            return Err(MoveError::GameOver);
        }
        let mut row: usize = 0;
        while self.cells[column + SIDE * row] != Tile::Empty
            invariant
                column < SIDE,
                row < SIDE,
                *self == *old(self),
                self@.cells[column + 12] == Tile::Empty,
                forall|r: int|
                    0 <= r < row ==> cell_at(self@.cells, column as int, r) != Tile::Empty,
            decreases SIDE - row,
        {
            row += 1;
        }
        assert(row == landing_row(old(self)@.cells, column as int)) by {
            assert(row > 0 ==> cell_at(self@.cells, column as int, 0) != Tile::Empty);
            assert(row > 1 ==> cell_at(self@.cells, column as int, 1) != Tile::Empty);
            assert(row > 2 ==> cell_at(self@.cells, column as int, 2) != Tile::Empty);
        }
        proof {
            lemma_filled_count_update(old(self)@.cells, column + 4 * row, tile);
        }
        self.cells[column + SIDE * row] = tile;
        self.check_winner();
        Ok(())
    }

    /// The team that owns the four cells `start`, `start + step`,
    /// `start + 2 step`, `start + 3 step`, if there is one.
    fn line(&self, start: usize, step: usize) -> (r: Option<Tile>)
        requires
            start + 3 * step < CELLS,
        ensures
            r == line_owner(self@.cells, start as int, step as int),
    {
        let t = self.cells[start];
        if t != Tile::Empty && self.cells[start + step] == t && self.cells[start + 2 * step] == t
            && self.cells[start + 3 * step] == t {
            Some(t)
        } else {
            None
        }
    }

    /// Recomputes the verdict from the cells: the owner of the first
    /// complete line, looking at the diagonals, then the rows from the top
    /// one down, then the columns from left to right; a draw if there is no
    /// such line and no cell is empty. Where neither holds the verdict is
    /// left as it was.
    pub fn check_winner(&mut self)
        ensures
            final(self)@.cells == old(self)@.cells,
            final(self)@.winner == first_of(outcome(old(self)@.cells), old(self)@.winner),
    {
        let rising = self.line(0, 5);
        if rising.is_some() {
            self.winner = rising;
            return ;
        }
        let falling = self.line(3, 3);
        if falling.is_some() {
            self.winner = falling;
            return ;
        }
        let mut row: usize = SIDE;
        while row > 0
            invariant
                row <= SIDE,
                *self == *old(self),
                forall|r: int| row <= r < SIDE ==> row_line(self@.cells, r) is None,
            decreases row,
        {
            row -= 1;
            let across = self.line(SIDE * row, 1);
            if across.is_some() {
                self.winner = across;
                return ;
            }
        }
        let mut column: usize = 0;
        while column < SIDE
            invariant
                column <= SIDE,
                *self == *old(self),
                forall|c: int| 0 <= c < column ==> column_line(self@.cells, c) is None,
            decreases SIDE - column,
        {
            let upward = self.line(column, SIDE);
            if upward.is_some() {
                self.winner = upward;
                return ;
            }
            column += 1;
        }
        let mut index: usize = 0;
        while index < CELLS
            invariant
                index <= CELLS,
                *self == *old(self),
                line_winner(self@.cells) is None,
                forall|i: int| 0 <= i < index ==> self@.cells[i] != Tile::Empty,
            decreases CELLS - index,
        {
            if self.cells[index] == Tile::Empty {
                return ;
            }
            index += 1;
        }
        self.winner = Some(Tile::Empty);
    }

    /// The fully dealt board that sixteen coin flips determine: cell `i`
    /// goes to cookie if flip `i` is heads and to milk if it is tails, with
    /// no regard to gravity. Such a board always has a verdict.
    pub fn deal(flips: &[bool; CELLS]) -> (b: Board)
        ensures
            b@.cells.len() == CELLS,
            b@.cells == dealt_cells(flips@),
            b@.winner == outcome(b@.cells),
            b@.winner is Some,
    {
        let mut cells = [Tile::Milk;CELLS];
        let mut index: usize = 0;
        while index < CELLS
            invariant
                index <= CELLS,
                forall|i: int| 0 <= i < index ==> cells@[i] == Tile::of_flip(flips@[i]),
            decreases CELLS - index,
        {
            cells[index] = Tile::from_flip(flips[index]);
            index += 1;
        }
        let mut board = Board { cells, winner: None };
        assert(board@.cells =~= dealt_cells(flips@));
        proof {
            lemma_full_is_decided(board@.cells);
        }
        board.check_winner();
        board
    }

    /// Deals a board from the next sixteen flips of `rng`, in the order of
    /// drawing, and moves the generator on by sixteen flips.
    pub fn new_random(rng: &mut StdRng) -> (b: Board)
        ensures
            b@.cells.len() == CELLS,
            b@.cells == dealt_cells(pending_flips(*old(rng), CELLS as nat)),
            b@.winner == outcome(b@.cells),
            b@.winner is Some,
            forall|i: nat| #[trigger]
                pending_flip(*final(rng), i) == pending_flip(*old(rng), i + CELLS as nat),
    {
        let mut flips = [false;CELLS];
        let mut index: usize = 0;
        while index < CELLS
            invariant
                index <= CELLS,
                forall|i: int|
                    0 <= i < index ==> flips@[i] == pending_flip(*old(rng), i as nat),
                forall|i: nat| #[trigger]
                    pending_flip(*rng, i) == pending_flip(*old(rng), i + index as nat),
            decreases CELLS - index,
        {
            let ghost before = *rng;
            let heads = flip(rng);
            flips[index] = heads;
            assert forall|i: nat| #[trigger]
                pending_flip(*rng, i) == pending_flip(*old(rng), i + index as nat + 1) by {
                assert(pending_flip(*rng, i) == pending_flip(before, i + 1));
            }
            index += 1;
        }
        assert(flips@ =~= pending_flips(*old(rng), CELLS as nat));
        Board::deal(&flips)
    }

    /// The sixteen cells by flat index.
    pub fn cells(&self) -> (cells: [Tile; CELLS])
        ensures
            cells@ == self@.cells,
    {
        self.cells
    }

    /// How the game stands: `None` while it is open, `Some(Tile::Empty)`
    /// for a draw, otherwise the team that won.
    pub fn winner(&self) -> (winner: Option<Tile>)
        ensures
            winner == self@.winner,
    {
        self.winner
    }

    /// Number of cells that hold a token.
    pub fn filled(&self) -> (count: usize)
        ensures
            count == filled_count(self@.cells),
            count <= CELLS,
    {
        let mut count: usize = 0;
        let mut index: usize = 0;
        while index < CELLS
            invariant
                index <= CELLS,
                count <= index,
                count == filled_count(self@.cells.take(index as int)),
            decreases CELLS - index,
        {
            assert(self@.cells.take(index + 1).drop_last() =~= self@.cells.take(index as int));
            if self.cells[index] != Tile::Empty {
                count += 1;
            }
            index += 1;
        }
        assert(self@.cells.take(CELLS as int) =~= self@.cells);
        count
    }
}

impl Default for Board {
    /// An empty grid with the game open.
    fn default() -> (b: Board)
        ensures
            b@ == empty_view(),
    {
        Board::new()
    }
}

} // verus!
