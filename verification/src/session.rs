//! The game session: one board and one stream of coin flips, changed only
//! together and only through the operations below.
//!
//! Reading takes `&self` and changing takes `&mut self`, so a caller that
//! shares a session between threads puts it behind a reader-writer lock:
//! any number of snapshots at once, one change at a time.

use crate::board::{
    after_place, dealt_cells, empty_view, outcome, place_result, Board, BoardView, MoveError,
    CELLS, SIDE,
};
use crate::rng::{pending_flip, pending_flips, seeded, seeded_flip};
use crate::tile::Tile;
use rand::rngs::StdRng;
use vstd::prelude::*;

verus! {

/// The seed of every session's stream of flips, at its start and after
/// every reset.
pub const RNG_SEED: u64 = 2024;

/// The mathematical content of a [`Session`].
#[verifier::ext_equal]
pub struct SessionView {
    /// The current board.
    pub board: BoardView,
    /// The flips still to come: `flips(0)` is drawn next, then `flips(1)`,
    /// and so on without end.
    pub flips: spec_fn(nat) -> bool,
}

/// The stream of flips at its beginning: the one that the seed gives.
pub open spec fn seeded_stream() -> spec_fn(nat) -> bool {
    |i: nat| seeded_flip(RNG_SEED, i)
}

/// What is left of a stream once its first `count` flips are drawn.
pub open spec fn stream_after(flips: spec_fn(nat) -> bool, count: nat) -> spec_fn(nat) -> bool {
    |i: nat| flips(i + count)
}

/// The first `count` flips of a stream, in the order of drawing.
pub open spec fn stream_head(flips: spec_fn(nat) -> bool, count: nat) -> Seq<bool> {
    Seq::new(count, |i: int| flips(i as nat))
}

/// The state of a session at its start and after every reset: an empty
/// board, the game open, and the stream of flips at its beginning.
pub open spec fn initial_view() -> SessionView {
    SessionView { board: empty_view(), flips: seeded_stream() }
}

/// The board that the next sixteen flips of a stream deal.
pub open spec fn dealt_view(flips: spec_fn(nat) -> bool) -> BoardView {
    let cells = dealt_cells(stream_head(flips, CELLS as nat));
    BoardView { cells, winner: outcome(cells) }
}

/// One board and one stream of coin flips.
pub struct Session {
    board: Board,
    rng: StdRng,
}

impl View for Session {
    type V = SessionView;

    closed spec fn view(&self) -> SessionView {
        SessionView { board: self.board@, flips: |i: nat| pending_flip(self.rng, i) }
    }
}

impl Session {
    /// Every session's board has exactly sixteen cells.
    pub proof fn lemma_sixteen_cells(self)
        ensures
            self@.board.cells.len() == CELLS,
    {
        self.board.lemma_sixteen_cells();
    }

    /// A session at its start.
    pub fn new() -> (s: Session)
        ensures
            s@ == initial_view(),
    {
        Session { board: Board::new(), rng: seeded(RNG_SEED) }
    }

    /// A copy of the current board.
    pub fn snapshot(&self) -> (b: Board)
        ensures
            b@ == self@.board,
            b@.cells.len() == CELLS,
    {
        proof {
            self.board.lemma_sixteen_cells();
        }
        self.board
    }

    /// Starts over: the board is replaced by an empty one and the stream of
    /// flips is rewound to its beginning. Returns the new board.
    pub fn reset(&mut self) -> (b: Board)
        ensures
            final(self)@ == initial_view(),
            b@ == final(self)@.board,
    {
        self.board = Board::new();
        self.rng = seeded(RNG_SEED);
        self.board
    }

    /// Drops a token of `team` into `column` of the current board. Returns
    /// the board after the move, or the refusal together with the board,
    /// which a refusal leaves as it was. The stream of flips is not touched.
    pub fn place(&mut self, team: Tile, column: usize) -> (r: Result<Board, (MoveError, Board)>)
        requires
            team != Tile::Empty,
            column < SIDE,
        ensures
            final(self)@.flips == old(self)@.flips,
            final(self)@.board == after_place(old(self)@.board, team, column as int),
            match r {
                Ok(b) => {
                    &&& place_result(old(self)@.board, column as int) is Ok
                    &&& b@ == final(self)@.board
                },
                Err((e, b)) => {
                    &&& place_result(old(self)@.board, column as int) == Err::<(), MoveError>(e)
                    &&& b@ == old(self)@.board
                    &&& final(self)@ == old(self)@
                },
            },
    {
        match self.board.place(team, column) {
            Ok(()) => Ok(self.board),
            Err(e) => Err((e, self.board)),
        }
    }

    /// Replaces the current board by the one that the next sixteen flips of
    /// the stream deal, and returns it. The new board always has a verdict.
    pub fn random_board(&mut self) -> (b: Board)
        ensures
            final(self)@.board == dealt_view(old(self)@.flips),
            final(self)@.flips == stream_after(old(self)@.flips, CELLS as nat),
            b@ == final(self)@.board,
            b@.winner is Some,
    {
        proof {
            assert(pending_flips(self.rng, CELLS as nat) =~= stream_head(
                self@.flips,
                CELLS as nat,
            ));
        }
        let board = Board::new_random(&mut self.rng);
        self.board = board;
        board
    }
}

} // verus!
