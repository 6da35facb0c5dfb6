//! How a board is drawn: four rows between walls, a floor, and a status line
//! once the game has ended. The glyphs are part of the format.

use crate::board::{Board, BoardView, SIDE};
use crate::tile::Tile;
use vstd::prelude::*;

verus! {

/// The glyph that frames the grid.
pub open spec fn wall_char() -> char {
    '\u{2B1C}'
}

/// One row as drawn: its four glyphs between two wall glyphs.
pub open spec fn row_text(cells: Seq<Tile>, row: int) -> Seq<char> {
    seq![
        wall_char(),
        cells[4 * row].glyph_char(),
        cells[4 * row + 1].glyph_char(),
        cells[4 * row + 2].glyph_char(),
        cells[4 * row + 3].glyph_char(),
        wall_char(),
    ]
}

/// The closing line under the grid: six wall glyphs.
pub open spec fn floor_text() -> Seq<char> {
    seq![wall_char(), wall_char(), wall_char(), wall_char(), wall_char(), wall_char()]
}

/// The text `No winner.`
pub open spec fn draw_text() -> Seq<char> {
    seq!['N', 'o', ' ', 'w', 'i', 'n', 'n', 'e', 'r', '.']
}

/// The text ` wins!`, which follows the glyph of the winning team.
pub open spec fn wins_text() -> Seq<char> {
    seq![' ', 'w', 'i', 'n', 's', '!']
}

/// The status line: none while the game is open.
pub open spec fn status_text(winner: Option<Tile>) -> Option<Seq<char>> {
    match winner {
        None => None,
        Some(Tile::Empty) => Some(draw_text()),
        Some(team) => Some(team.glyph_spec() + wins_text()),
    }
}

/// The lines of the drawing: the four rows from the top one down, the
/// floor, and the status line if there is one.
pub open spec fn render_spec(v: BoardView) -> Seq<Seq<char>> {
    let grid = seq![
        row_text(v.cells, 3),
        row_text(v.cells, 2),
        row_text(v.cells, 1),
        row_text(v.cells, 0),
        floor_text(),
    ];
    match status_text(v.winner) {
        Some(status) => grid.push(status),
        None => grid,
    }
}

/// The drawing as one text: every line of [`render_spec`] followed by a
/// line feed.
pub open spec fn text_spec(v: BoardView) -> Seq<char> {
    let feed = seq!['\n'];
    let grid = row_text(v.cells, 3) + feed + row_text(v.cells, 2) + feed + row_text(v.cells, 1)
        + feed + row_text(v.cells, 0) + feed + floor_text() + feed;
    match status_text(v.winner) {
        Some(status) => grid + status + feed,
        None => grid,
    }
}

/// Lines put one after the other, each followed by a line feed.
pub open spec fn joined(lines: Seq<Seq<char>>) -> Seq<char>
    decreases lines.len(),
{
    if lines.len() == 0 {
        Seq::empty()
    } else {
        joined(lines.drop_last()) + lines.last() + seq!['\n']
    }
}

/// The drawing as one text is the lines of the drawing, joined.
pub proof fn lemma_text_is_joined_lines(v: BoardView)
    ensures
        text_spec(v) == joined(render_spec(v)),
{
    let feed = seq!['\n'];
    let l0 = seq![row_text(v.cells, 3)];
    let l1 = l0.push(row_text(v.cells, 2));
    let l2 = l1.push(row_text(v.cells, 1));
    let l3 = l2.push(row_text(v.cells, 0));
    let l4 = l3.push(floor_text());
    assert(l0.drop_last() =~= Seq::<Seq<char>>::empty());
    assert(joined(l0.drop_last()) =~= Seq::<char>::empty());
    assert(joined(l0) =~= row_text(v.cells, 3) + feed);
    assert(l1.drop_last() =~= l0);
    assert(joined(l1) =~= joined(l0) + row_text(v.cells, 2) + feed);
    assert(l2.drop_last() =~= l1);
    assert(joined(l2) =~= joined(l1) + row_text(v.cells, 1) + feed);
    assert(l3.drop_last() =~= l2);
    assert(joined(l3) =~= joined(l2) + row_text(v.cells, 0) + feed);
    assert(l4.drop_last() =~= l3);
    assert(joined(l4) =~= joined(l3) + floor_text() + feed);
    assert(l4 =~= seq![
        row_text(v.cells, 3),
        row_text(v.cells, 2),
        row_text(v.cells, 1),
        row_text(v.cells, 0),
        floor_text(),
    ]);
    match status_text(v.winner) {
        Some(status) => {
            let l5 = l4.push(status);
            assert(l5.drop_last() =~= l4);
            assert(render_spec(v) =~= l5);
            assert(joined(l5) =~= joined(l4) + status + feed);
        },
        None => {
            assert(render_spec(v) =~= l4);
        },
    }
}

impl Board {
    /// One row of the drawing.
    fn row_string(&self, row: usize) -> (line: String)
        requires
            row < SIDE,
        ensures
            line@ == row_text(self@.cells, row as int),
    {
        proof {
            reveal_strlit("\u{2B1C}");
        }
        let cells = self.cells();
        let mut line = String::new();
        line.append("\u{2B1C}");
        line.append(cells[SIDE * row].glyph());
        line.append(cells[SIDE * row + 1].glyph());
        line.append(cells[SIDE * row + 2].glyph());
        line.append(cells[SIDE * row + 3].glyph());
        line.append("\u{2B1C}");
        assert(line@ =~= row_text(self@.cells, row as int));
        line
    }

    /// The closing line of the drawing.
    fn floor_string() -> (line: String)
        ensures
            line@ == floor_text(),
    {
        proof {
            reveal_strlit("\u{2B1C}\u{2B1C}\u{2B1C}\u{2B1C}\u{2B1C}\u{2B1C}");
        }
        let line = String::from_str("\u{2B1C}\u{2B1C}\u{2B1C}\u{2B1C}\u{2B1C}\u{2B1C}");
        assert(line@ =~= floor_text());
        line
    }

    /// The status line of the drawing, if the game has ended.
    fn status_string(&self) -> (status: Option<String>)
        ensures
            match status {
                Some(line) => status_text(self@.winner) == Some(line@),
                None => status_text(self@.winner) is None,
            },
    {
        match self.winner() {
            None => None,
            Some(Tile::Empty) => {
                proof {
                    reveal_strlit("No winner.");
                }
                let line = String::from_str("No winner.");
                assert(line@ =~= draw_text());
                Some(line)
            },
            Some(team) => {
                proof {
                    reveal_strlit(" wins!");
                }
                let mut line = String::from_str(team.glyph());
                line.append(" wins!");
                assert(line@ =~= team.glyph_spec() + wins_text());
                Some(line)
            },
        }
    }

    /// Draws the board: the four rows from the top one down, each between
    /// two wall glyphs, then a line of six wall glyphs, then, once the game
    /// has ended, `No winner.` for a draw or the winner's glyph followed by
    /// ` wins!`.
    pub fn render(&self) -> (lines: Vec<String>)
        ensures
            lines.deep_view() == render_spec(self@),
    {
        let mut lines: Vec<String> = Vec::new();
        lines.push(self.row_string(3));
        lines.push(self.row_string(2));
        lines.push(self.row_string(1));
        lines.push(self.row_string(0));
        lines.push(Self::floor_string());
        match self.status_string() {
            Some(status) => {
                lines.push(status);
            },
            None => {},
        }
        assert(lines.deep_view() =~= render_spec(self@));
        lines
    }

    /// The drawing as one text, every line of it ended by a line feed.
    pub fn to_text(&self) -> (text: String)
        ensures
            text@ == text_spec(self@),
    {
        proof {
            reveal_strlit("\n");
        }
        let mut text = String::new();
        text.append(self.row_string(3).as_str());
        text.append("\n");
        text.append(self.row_string(2).as_str());
        text.append("\n");
        text.append(self.row_string(1).as_str());
        text.append("\n");
        text.append(self.row_string(0).as_str());
        text.append("\n");
        text.append(Self::floor_string().as_str());
        text.append("\n");
        match self.status_string() {
            Some(status) => {
                text.append(status.as_str());
                text.append("\n");
            },
            None => {},
        }
        assert(text@ =~= text_spec(self@));
        text
    }
}

} // verus!
