//! Whole games: what holds along every sequence of moves on a board and
//! along every sequence of commands to a session.

use crate::board::{
    after_place, cell_at, empty_cells, filled_count, is_full, landing_row,
    lemma_filled_count_bounded, lemma_filled_count_update, lemma_landing_row_is_lowest,
    place_result, BoardView, MoveError, CELLS,
};
use crate::command::{reply_to, step, Command, ReplyView};
use crate::render::text_spec;
use crate::session::{dealt_view, initial_view, seeded_stream, SessionView};
use crate::tile::Tile;
use vstd::prelude::*;

verus! {

/// A move on a board: a token of a team for a column, counted from 0.
pub struct Move {
    pub team: Tile,
    pub column: int,
}

impl Move {
    /// The move names a team and a column of the grid.
    pub open spec fn is_valid(self) -> bool {
        self.team != Tile::Empty && 0 <= self.column < 4
    }
}

/// The board after the moves were tried one after the other. A refused
/// move leaves the board as it was, and the next one is tried.
pub open spec fn play(v: BoardView, moves: Seq<Move>) -> BoardView
    decreases moves.len(),
{
    if moves.len() == 0 {
        v
    } else {
        let before = play(v, moves.drop_last());
        after_place(before, moves.last().team, moves.last().column)
    }
}

/// One attempt to move: the grid keeps its size and no taken cell changes;
/// an accepted move raises the number of taken cells by one, and a refused
/// one leaves the board as it was.
pub proof fn lemma_move_fills(v: BoardView, m: Move)
    requires
        v.cells.len() == CELLS,
        m.is_valid(),
    ensures
        after_place(v, m.team, m.column).cells.len() == CELLS,
        forall|i: int|
            0 <= i < CELLS && v.cells[i] != Tile::Empty ==> after_place(v, m.team, m.column).cells[i]
                == v.cells[i],
        place_result(v, m.column) is Ok ==> filled_count(after_place(v, m.team, m.column).cells)
            == filled_count(v.cells) + 1,
        place_result(v, m.column) is Err ==> after_place(v, m.team, m.column) == v,
{
    if place_result(v, m.column) is Ok {
        lemma_landing_row_is_lowest(v.cells, m.column);
        lemma_filled_count_update(v.cells, m.column + 4 * landing_row(v.cells, m.column), m.team);
    }
}

/// No token floats: in every column the cells above an empty cell are
/// empty.
pub open spec fn is_stacked(cells: Seq<Tile>) -> bool {
    forall|column: int, row: int|
        0 <= column < 4 && 0 <= row < 3 && #[trigger] cell_at(cells, column, row) == Tile::Empty
            ==> cell_at(cells, column, row + 1) == Tile::Empty
}

/// On an empty grid no token floats.
pub proof fn lemma_empty_is_stacked()
    ensures
        is_stacked(empty_cells()),
{
    assert forall|column: int, row: int|
        0 <= column < 4 && 0 <= row < 3 && #[trigger] cell_at(empty_cells(), column, row)
            == Tile::Empty implies cell_at(empty_cells(), column, row + 1) == Tile::Empty by {
        assert(empty_cells()[column + 4 * (row + 1)] == Tile::Empty);
    }
}

/// A move keeps the tokens stacked.
pub proof fn lemma_move_keeps_stacked(v: BoardView, m: Move)
    requires
        v.cells.len() == CELLS,
        m.is_valid(),
        is_stacked(v.cells),
    ensures
        is_stacked(after_place(v, m.team, m.column).cells),
{
    let after = after_place(v, m.team, m.column).cells;
    if place_result(v, m.column) is Ok {
        lemma_landing_row_is_lowest(v.cells, m.column);
        let landed = landing_row(v.cells, m.column);
        assert forall|column: int, row: int|
            0 <= column < 4 && 0 <= row < 3 && #[trigger] cell_at(after, column, row)
                == Tile::Empty implies cell_at(after, column, row + 1) == Tile::Empty by {
            assert(cell_at(v.cells, column, row) == Tile::Empty);
            assert(cell_at(v.cells, column, row + 1) == Tile::Empty);
            if column == m.column && row + 1 == landed {
                assert(cell_at(v.cells, column, row) != Tile::Empty);
            }
        }
    }
}

/// Starting from stacked tokens, every sequence of valid moves leaves the
/// tokens stacked.
pub proof fn lemma_play_keeps_stacked(v: BoardView, moves: Seq<Move>)
    requires
        v.cells.len() == CELLS,
        forall|k: int| 0 <= k < moves.len() ==> (#[trigger] moves[k]).is_valid(),
        is_stacked(v.cells),
    ensures
        is_stacked(play(v, moves).cells),
    decreases moves.len(),
{
    if moves.len() > 0 {
        lemma_play_keeps_stacked(v, moves.drop_last());
        lemma_play_bounded(v, moves.drop_last());
        lemma_move_keeps_stacked(play(v, moves.drop_last()), moves.last());
    }
}

/// While the tokens are stacked, a column is refused as full exactly when
/// all four of its cells are taken.
pub proof fn lemma_stacked_column_full(v: BoardView, column: int)
    requires
        v.cells.len() == CELLS,
        0 <= column < 4,
        is_stacked(v.cells),
    ensures
        place_result(v, column) == Err::<(), MoveError>(MoveError::ColumnFull) <==> (forall|
            row: int,
        | 0 <= row < 4 ==> #[trigger] cell_at(v.cells, column, row) != Tile::Empty),
{
    if v.cells[column + 12] != Tile::Empty {
        assert(cell_at(v.cells, column, 3) != Tile::Empty);
        assert(cell_at(v.cells, column, 2) != Tile::Empty);
        assert(cell_at(v.cells, column, 1) != Tile::Empty);
        assert(cell_at(v.cells, column, 0) != Tile::Empty);
    } else {
        assert(cell_at(v.cells, column, 3) == Tile::Empty);
    }
}

/// A move into a column whose topmost cell is taken is refused as
/// `ColumnFull`, whatever the state of the game, and changes nothing.
pub proof fn lemma_full_column_refuses(v: BoardView, m: Move)
    requires
        v.cells[m.column + 12] != Tile::Empty,
    ensures
        place_result(v, m.column) == Err::<(), MoveError>(MoveError::ColumnFull),
        after_place(v, m.team, m.column) == v,
{
}

/// Once the game has a verdict, a move into a column that is not full is
/// refused as `GameOver` and changes nothing.
pub proof fn lemma_ended_game_refuses(v: BoardView, m: Move)
    requires
        v.winner is Some,
        v.cells[m.column + 12] == Tile::Empty,
    ensures
        place_result(v, m.column) == Err::<(), MoveError>(MoveError::GameOver),
        after_place(v, m.team, m.column) == v,
{
}

/// Once the game has a verdict, no sequence of moves changes the board.
pub proof fn lemma_ended_game_stays(v: BoardView, moves: Seq<Move>)
    requires
        v.winner is Some,
    ensures
        play(v, moves) == v,
    decreases moves.len(),
{
    if moves.len() > 0 {
        lemma_ended_game_stays(v, moves.drop_last());
    }
}

/// Along every sequence of valid moves the grid keeps its sixteen cells and
/// the number of taken cells never exceeds sixteen.
pub proof fn lemma_play_bounded(v: BoardView, moves: Seq<Move>)
    requires
        v.cells.len() == CELLS,
        forall|k: int| 0 <= k < moves.len() ==> (#[trigger] moves[k]).is_valid(),
    ensures
        play(v, moves).cells.len() == CELLS,
        filled_count(play(v, moves).cells) <= CELLS,
    decreases moves.len(),
{
    if moves.len() > 0 {
        lemma_play_bounded(v, moves.drop_last());
        lemma_move_fills(play(v, moves.drop_last()), moves.last());
    }
    lemma_filled_count_bounded(play(v, moves).cells);
}

/// Along every sequence of valid moves the number of taken cells never
/// decreases: after the first `later` moves there are at least as many as
/// after the first `earlier`.
pub proof fn lemma_fill_never_decreases(v: BoardView, moves: Seq<Move>, earlier: int, later: int)
    requires
        v.cells.len() == CELLS,
        forall|k: int| 0 <= k < moves.len() ==> (#[trigger] moves[k]).is_valid(),
        0 <= earlier <= later <= moves.len(),
    ensures
        filled_count(play(v, moves.take(earlier)).cells) <= filled_count(
            play(v, moves.take(later)).cells,
        ),
        filled_count(play(v, moves.take(later)).cells) <= CELLS,
    decreases later - earlier,
{
    lemma_play_bounded(v, moves.take(later));
    if earlier < later {
        let shorter = moves.take(later - 1);
        assert(moves.take(later).drop_last() =~= shorter);
        lemma_fill_never_decreases(v, moves, earlier, later - 1);
        lemma_play_bounded(v, shorter);
        lemma_move_fills(play(v, shorter), moves.take(later).last());
    }
}

/// A cell that is taken keeps its token through every sequence of valid
/// moves.
pub proof fn lemma_taken_cells_stay(v: BoardView, moves: Seq<Move>, index: int)
    requires
        v.cells.len() == CELLS,
        forall|k: int| 0 <= k < moves.len() ==> (#[trigger] moves[k]).is_valid(),
        0 <= index < CELLS,
        v.cells[index] != Tile::Empty,
    ensures
        play(v, moves).cells[index] == v.cells[index],
    decreases moves.len(),
{
    if moves.len() > 0 {
        lemma_taken_cells_stay(v, moves.drop_last(), index);
        lemma_play_bounded(v, moves.drop_last());
        lemma_move_fills(play(v, moves.drop_last()), moves.last());
    }
}

/// Every dealt board is full and has a verdict, whatever the flips.
pub proof fn lemma_dealt_board_is_decided(flips: spec_fn(nat) -> bool)
    ensures
        is_full(dealt_view(flips).cells),
        dealt_view(flips).winner is Some,
{
}

/// The state of a session after a sequence of commands.
pub open spec fn run(s: SessionView, commands: Seq<Command>) -> SessionView
    decreases commands.len(),
{
    if commands.len() == 0 {
        s
    } else {
        step(run(s, commands.drop_last()), commands.last())
    }
}

/// The replies of a session to a sequence of commands, one for each.
pub open spec fn replies(s: SessionView, commands: Seq<Command>) -> Seq<ReplyView> {
    Seq::new(commands.len(), |i: int| reply_to(run(s, commands.take(i)), commands[i]))
}

/// A reset wipes out the past: whatever two sessions went through before,
/// after a reset they answer every further sequence of commands alike,
/// text for text, and end in the same state.
pub proof fn lemma_reset_forgets(a: SessionView, b: SessionView, commands: Seq<Command>)
    ensures
        run(step(a, Command::Reset), commands) == run(step(b, Command::Reset), commands),
        replies(step(a, Command::Reset), commands) == replies(step(b, Command::Reset), commands),
{
}

/// A session that was reset behaves as one that was just made.
pub proof fn lemma_reset_is_fresh_start(before: SessionView, commands: Seq<Command>)
    ensures
        run(step(before, Command::Reset), commands) == run(initial_view(), commands),
        replies(step(before, Command::Reset), commands) == replies(initial_view(), commands),
{
}

/// The first board dealt after a reset is the same every time: the one
/// that the first sixteen flips of the seeded stream deal.
pub proof fn lemma_first_deal_after_reset(before: SessionView)
    ensures
        step(step(before, Command::Reset), Command::RandomBoard).board == dealt_view(
            seeded_stream(),
        ),
        reply_to(step(before, Command::Reset), Command::RandomBoard) == ReplyView::Rendered(
            text_spec(dealt_view(seeded_stream())),
        ),
{
}

/// A valid move never lowers the number of taken cells on a session's
/// board, never changes a taken cell, and leaves the stream of flips alone.
pub proof fn lemma_session_move_fills(s: SessionView, team: Tile, column: usize)
    requires
        s.board.cells.len() == CELLS,
        (Command::Place { team, column }).is_valid(),
    ensures
        step(s, Command::Place { team, column }).board.cells.len() == CELLS,
        step(s, Command::Place { team, column }).flips == s.flips,
        filled_count(s.board.cells) <= filled_count(
            step(s, Command::Place { team, column }).board.cells,
        ) <= CELLS,
        forall|i: int|
            0 <= i < CELLS && s.board.cells[i] != Tile::Empty ==> step(
                s,
                Command::Place { team, column },
            ).board.cells[i] == s.board.cells[i],
{
    let m = Move { team, column: column as int };
    lemma_move_fills(s.board, m);
    lemma_filled_count_bounded(after_place(s.board, team, column as int).cells);
}

/// Whoever looks at a session twice while valid moves come in, in whatever
/// order they are carried out one at a time, never sees a token gone: the
/// board seen later has every token of the board seen earlier in its place,
/// and at least as many tokens.
pub proof fn lemma_snapshots_only_grow(
    s: SessionView,
    commands: Seq<Command>,
    earlier: int,
    later: int,
)
    requires
        s.board.cells.len() == CELLS,
        forall|k: int|
            0 <= k < commands.len() ==> (#[trigger] commands[k]) is Place && commands[k].is_valid(),
        0 <= earlier <= later <= commands.len(),
    ensures
        run(s, commands.take(earlier)).board.cells.len() == CELLS,
        run(s, commands.take(later)).board.cells.len() == CELLS,
        filled_count(run(s, commands.take(earlier)).board.cells) <= filled_count(
            run(s, commands.take(later)).board.cells,
        ) <= CELLS,
        forall|i: int|
            0 <= i < CELLS && run(s, commands.take(earlier)).board.cells[i] != Tile::Empty
                ==> run(s, commands.take(later)).board.cells[i] == run(
                s,
                commands.take(earlier),
            ).board.cells[i],
    decreases later,
{
    if later == 0 {
        assert(commands.take(0) =~= Seq::<Command>::empty());
        lemma_filled_count_bounded(s.board.cells);
    } else {
        let shorter = commands.take(later - 1);
        assert(commands.take(later).drop_last() =~= shorter);
        let last = commands[later - 1];
        assert(commands.take(later).last() == last);
        if earlier == later {
            lemma_snapshots_only_grow(s, commands, later - 1, later - 1);
        } else {
            lemma_snapshots_only_grow(s, commands, earlier, later - 1);
        }
        match last {
            Command::Place { team, column } => {
                lemma_session_move_fills(run(s, shorter), team, column);
            },
            _ => {},
        }
    }
}

} // verus!
