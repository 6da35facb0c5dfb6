//! The three-valued symbol that occupies a cell of the grid.

use vstd::prelude::*;

verus! {

/// What a cell holds: nothing, or the token of one of the two teams.
#[derive(Debug, Clone, Copy, PartialEq, Eq, Structural)]
pub enum Tile {
    /// No token. Drawn as a black square.
    Empty,
    /// A token of team cookie. Drawn as a cookie.
    Cookie,
    /// A token of team milk. Drawn as a glass of milk.
    Milk,
}

impl Tile {
    /// The single character by which this tile is drawn.
    pub open spec fn glyph_char(self) -> char {
        match self {
            Tile::Empty => '\u{2B1B}',
            Tile::Cookie => '\u{1F36A}',
            Tile::Milk => '\u{1F95B}',
        }
    }

    /// The textual rendering of this tile: exactly one character.
    pub open spec fn glyph_spec(self) -> Seq<char> {
        seq![self.glyph_char()]
    }

    /// The team that a coin flip stands for: heads is cookie, tails is milk.
    pub open spec fn of_flip(heads: bool) -> Tile {
        if heads {
            Tile::Cookie
        } else {
            Tile::Milk
        }
    }

    /// The team that a coin flip stands for.
    pub fn from_flip(heads: bool) -> (team: Tile)
        ensures
            team == Tile::of_flip(heads),
    {
        if heads {
            Tile::Cookie
        } else {
            Tile::Milk
        }
    }

    /// The glyph of this tile, as it goes out to callers.
    pub fn glyph(self) -> (s: &'static str)
        ensures
            s@ == self.glyph_spec(),
    {
        match self {
            Tile::Empty => {
                proof {
                    reveal_strlit("\u{2B1B}");
                }
                assert("\u{2B1B}"@ =~= seq!['\u{2B1B}']);
                "\u{2B1B}"
            },
            Tile::Cookie => {
                proof {
                    reveal_strlit("\u{1F36A}");
                }
                assert("\u{1F36A}"@ =~= seq!['\u{1F36A}']);
                "\u{1F36A}"
            },
            Tile::Milk => {
                proof {
                    reveal_strlit("\u{1F95B}");
                }
                assert("\u{1F95B}"@ =~= seq!['\u{1F95B}']);
                "\u{1F95B}"
            },
        }
    }
}

} // verus!
