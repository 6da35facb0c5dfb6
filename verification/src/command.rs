//! The four commands of a session and the replies to them, as a transport
//! hands them in and takes them back.

use crate::board::{after_place, place_result, MoveError, CELLS, SIDE};
use crate::render::text_spec;
use crate::session::{dealt_view, initial_view, stream_after, Session, SessionView};
use crate::tile::Tile;
use vstd::prelude::*;

verus! {

/// What a caller can ask of a session.
#[derive(Debug, Clone, Copy, PartialEq, Eq, Structural)]
pub enum Command {
    /// Show the current board.
    GetBoard,
    /// Start over.
    Reset,
    /// Drop a token of `team` into `column`, counted from 0.
    Place { team: Tile, column: usize },
    /// Replace the board by a dealt one.
    RandomBoard,
}

/// What a session answers.
#[derive(Debug, PartialEq, Eq)]
pub enum Reply {
    /// The command was carried out; the text draws the board after it.
    Rendered(String),
    /// The move was refused for the reason given; the text draws the
    /// board, which the refusal left as it was.
    Refused(MoveError, String),
    /// The command names no team or no column of the grid; nothing was
    /// done and there is no board to show.
    BadRequest,
}

/// The mathematical content of a [`Reply`].
#[verifier::ext_equal]
pub enum ReplyView {
    Rendered(Seq<char>),
    Refused(MoveError, Seq<char>),
    BadRequest,
}

impl View for Reply {
    type V = ReplyView;

    open spec fn view(&self) -> ReplyView {
        match self {
            Reply::Rendered(text) => ReplyView::Rendered(text@),
            Reply::Refused(reason, text) => ReplyView::Refused(*reason, text@),
            Reply::BadRequest => ReplyView::BadRequest,
        }
    }
}

/// The team that a name stands for: `cookie` or `milk`, in lower case.
pub open spec fn team_of_name(name: Seq<char>) -> Option<Tile> {
    if name == seq!['c', 'o', 'o', 'k', 'i', 'e'] {
        Some(Tile::Cookie)
    } else if name == seq!['m', 'i', 'l', 'k'] {
        Some(Tile::Milk)
    } else {
        None
    }
}

/// The column, counted from 0, that a caller's column number stands for.
/// Callers count the columns from 1 to 4.
pub open spec fn column_of_number(number: int) -> Option<int> {
    if 1 <= number <= SIDE {
        Some(number - 1)
    } else {
        None
    }
}

/// The move that a team name and a column number ask for, if both are
/// valid.
pub open spec fn place_command(name: Seq<char>, number: int) -> Option<Command> {
    match (team_of_name(name), column_of_number(number)) {
        (Some(team), Some(column)) => Some(Command::Place { team, column: column as usize }),
        _ => None,
    }
}

impl Command {
    /// A move is valid if it names a team and a column of the grid; the
    /// other commands always are.
    pub open spec fn is_valid(self) -> bool {
        match self {
            Command::Place { team, column } => team != Tile::Empty && column < SIDE,
            _ => true,
        }
    }
}

/// The state of a session after a command. A command that is not valid
/// changes nothing, and neither does a refused move.
pub open spec fn step(s: SessionView, command: Command) -> SessionView {
    match command {
        Command::GetBoard => s,
        Command::Reset => initial_view(),
        Command::Place { team, column } => if command.is_valid() {
            SessionView { board: after_place(s.board, team, column as int), flips: s.flips }
        } else {
            s
        },
        Command::RandomBoard => SessionView {
            board: dealt_view(s.flips),
            flips: stream_after(s.flips, CELLS as nat),
        },
    }
}

/// The reply of a session in state `s` to a command.
pub open spec fn reply_to(s: SessionView, command: Command) -> ReplyView {
    match command {
        Command::Place { team, column } => if !command.is_valid() {
            ReplyView::BadRequest
        } else {
            match place_result(s.board, column as int) {
                Ok(_) => ReplyView::Rendered(text_spec(step(s, command).board)),
                Err(reason) => ReplyView::Refused(reason, text_spec(s.board)),
            }
        },
        _ => ReplyView::Rendered(text_spec(step(s, command).board)),
    }
}

/// Reads a team name.
pub fn parse_team(name: &str) -> (team: Option<Tile>)
    ensures
        team == team_of_name(name@),
{
    proof {
        reveal_strlit("cookie");
        reveal_strlit("milk");
    }
    let given = name.to_owned();
    let cookie = "cookie".to_owned();
    let milk = "milk".to_owned();
    assert(cookie@ =~= seq!['c', 'o', 'o', 'k', 'i', 'e']);
    assert(milk@ =~= seq!['m', 'i', 'l', 'k']);
    if given == cookie {
        Some(Tile::Cookie)
    } else if given == milk {
        Some(Tile::Milk)
    } else {
        None
    }
}

/// Reads a column number as callers give it, from 1 to 4.
pub fn parse_column(number: u8) -> (column: Option<usize>)
    ensures
        match column {
            Some(c) => column_of_number(number as int) == Some(c as int),
            None => column_of_number(number as int) is None,
        },
{
    if number == 0 || number > 4 {
        None
    } else {
        Some((number - 1) as usize)
    }
}

/// Reads a move from a team name and a column number. Returns `None` if
/// the name is neither `cookie` nor `milk`, or the number is not one of 1
/// to 4.
pub fn parse_place(team: &str, column: u8) -> (command: Option<Command>)
    ensures
        command == place_command(team@, column as int),
        command matches Some(c) ==> c.is_valid(),
{
    match parse_team(team) {
        Some(team) => match parse_column(column) {
            Some(column) => Some(Command::Place { team, column }),
            None => None,
        },
        None => None,
    }
}

impl Session {
    /// Answers `GetBoard` without changing anything: the reply draws the
    /// current board.
    pub fn show(&self) -> (reply: Reply)
        ensures
            reply@ == reply_to(self@, Command::GetBoard),
    {
        Reply::Rendered(self.snapshot().to_text())
    }

    /// Carries out a command and answers it. A move that names no team or
    /// no column of the grid is answered with `BadRequest` and changes
    /// nothing; a refused move is answered with the reason and the board as
    /// it stands; everything else is answered with the board after the
    /// command.
    pub fn execute(&mut self, command: Command) -> (reply: Reply)
        ensures
            final(self)@ == step(old(self)@, command),
            reply@ == reply_to(old(self)@, command),
    {
        match command {
            Command::GetBoard => self.show(),
            Command::Reset => Reply::Rendered(self.reset().to_text()),
            Command::Place { team, column } => {
                if team == Tile::Empty || column >= SIDE {
                    Reply::BadRequest
                } else {
                    match self.place(team, column) {
                        Ok(board) => Reply::Rendered(board.to_text()),
                        Err((reason, board)) => Reply::Refused(reason, board.to_text()),
                    }
                }
            },
            Command::RandomBoard => Reply::Rendered(self.random_board().to_text()),
        }
    }

    /// Carries out the move that a team name and a column number ask for,
    /// if they are valid, and answers `BadRequest` without touching the
    /// session if they are not.
    pub fn place_request(&mut self, team: &str, column: u8) -> (reply: Reply)
        ensures
            match place_command(team@, column as int) {
                Some(command) => {
                    &&& final(self)@ == step(old(self)@, command)
                    &&& reply@ == reply_to(old(self)@, command)
                },
                None => final(self)@ == old(self)@ && reply@ == ReplyView::BadRequest,
            },
    {
        match parse_place(team, column) {
            Some(command) => self.execute(command),
            None => Reply::BadRequest,
        }
    }
}

} // verus!
