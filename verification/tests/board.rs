use milk_and_cookies::board::{Board, MoveError, CELLS, SIDE};
use milk_and_cookies::tile::Tile;

const C: Tile = Tile::Cookie;
const M: Tile = Tile::Milk;
const E: Tile = Tile::Empty;

/// Builds the flips that deal the given cells.
fn flips_for(cells: [Tile; 16]) -> [bool; 16] {
    let mut flips = [false; 16];
    for i in 0..16 {
        assert_ne!(cells[i], E);
        flips[i] = cells[i] == C;
    }
    flips
}

fn play(board: &mut Board, moves: &[(Tile, usize)]) {
    for (team, column) in moves {
        assert_eq!(board.place(*team, *column), Ok(()));
    }
}

#[test]
fn sizes() {
    assert_eq!(SIDE, 4);
    assert_eq!(CELLS, 16);
}

#[test]
fn glyphs_are_exact() {
    assert_eq!(Tile::Empty.glyph(), "⬛");
    assert_eq!(Tile::Cookie.glyph(), "🍪");
    assert_eq!(Tile::Milk.glyph(), "🥛");
}

#[test]
fn flips_map_to_teams() {
    assert_eq!(Tile::from_flip(true), Tile::Cookie);
    assert_eq!(Tile::from_flip(false), Tile::Milk);
}

#[test]
fn new_board_is_empty_and_open() {
    let board = Board::new();
    assert_eq!(board.cells(), [E; 16]);
    assert_eq!(board.winner(), None);
    assert_eq!(board.filled(), 0);
    assert_eq!(board, Board::default());
}

#[test]
fn new_board_renders_without_status() {
    let board = Board::new();
    assert_eq!(
        board.render(),
        vec![
            "⬜⬛⬛⬛⬛⬜".to_string(),
            "⬜⬛⬛⬛⬛⬜".to_string(),
            "⬜⬛⬛⬛⬛⬜".to_string(),
            "⬜⬛⬛⬛⬛⬜".to_string(),
            "⬜⬜⬜⬜⬜⬜".to_string(),
        ]
    );
    assert_eq!(
        board.to_text(),
        "⬜⬛⬛⬛⬛⬜\n⬜⬛⬛⬛⬛⬜\n⬜⬛⬛⬛⬛⬜\n⬜⬛⬛⬛⬛⬜\n⬜⬜⬜⬜⬜⬜\n"
    );
}

#[test]
fn token_lands_on_bottom_row_first() {
    let mut board = Board::new();
    assert_eq!(board.place(M, 2), Ok(()));
    let mut expected = [E; 16];
    expected[2] = M;
    assert_eq!(board.cells(), expected);
    assert_eq!(board.winner(), None);
    assert_eq!(
        board.to_text(),
        "⬜⬛⬛⬛⬛⬜\n⬜⬛⬛⬛⬛⬜\n⬜⬛⬛⬛⬛⬜\n⬜⬛⬛🥛⬛⬜\n⬜⬜⬜⬜⬜⬜\n"
    );
}

#[test]
fn tokens_stack_upwards() {
    let mut board = Board::new();
    play(&mut board, &[(C, 1), (M, 1), (C, 1)]);
    let cells = board.cells();
    assert_eq!(cells[1], C);
    assert_eq!(cells[5], M);
    assert_eq!(cells[9], C);
    assert_eq!(cells[13], E);
    assert_eq!(board.filled(), 3);
}

#[test]
fn column_takes_four_tokens_and_refuses_the_fifth() {
    let mut board = Board::new();
    for row in 0..4 {
        assert_eq!(board.place(C, 0), Ok(()));
        assert_eq!(board.cells()[4 * row], C);
        assert_eq!(board.filled(), row + 1);
    }
    let before = board;
    assert_eq!(board.place(C, 0), Err(MoveError::ColumnFull));
    assert_eq!(board, before);
}

#[test]
fn vertical_win() {
    let mut board = Board::new();
    for n in 0..4 {
        assert_eq!(board.winner(), None);
        assert_eq!(board.place(C, 0), Ok(()), "placement {n}");
    }
    assert_eq!(board.winner(), Some(C));
    assert_eq!(
        board.render(),
        vec![
            "⬜🍪⬛⬛⬛⬜".to_string(),
            "⬜🍪⬛⬛⬛⬜".to_string(),
            "⬜🍪⬛⬛⬛⬜".to_string(),
            "⬜🍪⬛⬛⬛⬜".to_string(),
            "⬜⬜⬜⬜⬜⬜".to_string(),
            "🍪 wins!".to_string(),
        ]
    );
    assert_eq!(
        board.to_text(),
        "⬜🍪⬛⬛⬛⬜\n⬜🍪⬛⬛⬛⬜\n⬜🍪⬛⬛⬛⬜\n⬜🍪⬛⬛⬛⬜\n⬜⬜⬜⬜⬜⬜\n🍪 wins!\n"
    );
}

#[test]
fn horizontal_win() {
    let mut board = Board::new();
    play(&mut board, &[(M, 0), (M, 1), (M, 2)]);
    assert_eq!(board.winner(), None);
    play(&mut board, &[(M, 3)]);
    assert_eq!(board.winner(), Some(M));
    assert_eq!(
        board.to_text(),
        "⬜⬛⬛⬛⬛⬜\n⬜⬛⬛⬛⬛⬜\n⬜⬛⬛⬛⬛⬜\n⬜🥛🥛🥛🥛⬜\n⬜⬜⬜⬜⬜⬜\n🥛 wins!\n"
    );
}

#[test]
fn rising_diagonal_win() {
    let mut board = Board::new();
    play(
        &mut board,
        &[
            (C, 0),
            (M, 1),
            (C, 1),
            (M, 2),
            (C, 3),
            (M, 2),
            (C, 2),
            (M, 3),
            (C, 0),
            (M, 3),
        ],
    );
    assert_eq!(board.winner(), None);
    play(&mut board, &[(C, 3)]);
    let cells = board.cells();
    assert_eq!([cells[0], cells[5], cells[10], cells[15]], [C, C, C, C]);
    assert_eq!(board.winner(), Some(C));
}

#[test]
fn falling_diagonal_win() {
    let mut board = Board::new();
    play(
        &mut board,
        &[
            (M, 3),
            (C, 2),
            (M, 2),
            (C, 1),
            (M, 0),
            (C, 1),
            (M, 1),
            (C, 0),
            (M, 3),
            (C, 0),
        ],
    );
    assert_eq!(board.winner(), None);
    play(&mut board, &[(M, 0)]);
    let cells = board.cells();
    assert_eq!([cells[3], cells[6], cells[9], cells[12]], [M, M, M, M]);
    assert_eq!(board.winner(), Some(M));
}

const DRAW_MOVES: [(Tile, usize); 16] = [
    (C, 0),
    (M, 2),
    (C, 1),
    (M, 3),
    (C, 2),
    (M, 0),
    (C, 3),
    (M, 1),
    (C, 0),
    (M, 2),
    (C, 1),
    (M, 3),
    (C, 2),
    (M, 0),
    (C, 3),
    (M, 1),
];

#[test]
fn draw_after_sixteen_alternating_moves() {
    let mut board = Board::new();
    for (n, (team, column)) in DRAW_MOVES.iter().enumerate() {
        assert_eq!(board.winner(), None, "before move {n}");
        assert_eq!(board.filled(), n);
        assert_eq!(board.place(*team, *column), Ok(()));
    }
    assert_eq!(board.filled(), 16);
    assert_eq!(
        board.cells(),
        [C, C, M, M, M, M, C, C, C, C, M, M, M, M, C, C]
    );
    assert_eq!(board.winner(), Some(E));
    assert_eq!(
        board.to_text(),
        "⬜🥛🥛🍪🍪⬜\n⬜🍪🍪🥛🥛⬜\n⬜🥛🥛🍪🍪⬜\n⬜🍪🍪🥛🥛⬜\n⬜⬜⬜⬜⬜⬜\nNo winner.\n"
    );
    assert_eq!(board.render()[5], "No winner.");
}

#[test]
fn full_column_is_refused_and_board_untouched() {
    let mut board = Board::new();
    play(&mut board, &[(C, 2), (M, 2), (C, 2), (M, 2)]);
    assert_eq!(board.winner(), None);
    let before = board;
    assert_eq!(board.place(C, 2), Err(MoveError::ColumnFull));
    assert_eq!(board, before);
    assert_eq!(board.place(M, 2), Err(MoveError::ColumnFull));
    assert_eq!(board, before);
    assert_eq!(board.place(M, 3), Ok(()));
}

#[test]
fn ended_game_refuses_every_move() {
    let mut board = Board::new();
    play(&mut board, &[(M, 0), (M, 1), (M, 2), (M, 3)]);
    assert_eq!(board.winner(), Some(M));
    let before = board;
    for column in 0..4 {
        assert_eq!(board.place(C, column), Err(MoveError::GameOver));
        assert_eq!(board, before);
        assert_eq!(board.place(M, column), Err(MoveError::GameOver));
        assert_eq!(board, before);
    }
}

#[test]
fn full_column_is_reported_before_game_over() {
    let mut board = Board::new();
    play(&mut board, &[(C, 0), (C, 0), (C, 0), (C, 0)]);
    assert_eq!(board.winner(), Some(C));
    let before = board;
    assert_eq!(board.place(M, 0), Err(MoveError::ColumnFull));
    assert_eq!(board.place(M, 1), Err(MoveError::GameOver));
    assert_eq!(board, before);
}

#[test]
fn drawn_game_refuses_with_column_full() {
    let mut board = Board::new();
    play(&mut board, &DRAW_MOVES);
    let before = board;
    for column in 0..4 {
        assert_eq!(board.place(C, column), Err(MoveError::ColumnFull));
    }
    assert_eq!(board, before);
}

#[test]
fn filled_cells_never_decrease() {
    let mut board = Board::new();
    let attempts = [
        (C, 0),
        (C, 0),
        (M, 0),
        (M, 0),
        (C, 0),
        (M, 1),
        (C, 1),
        (M, 1),
        (M, 1),
        (C, 1),
        (C, 2),
        (C, 3),
        (C, 2),
        (C, 3),
        (C, 2),
        (C, 3),
        (C, 2),
        (M, 3),
    ];
    let mut last = board.filled();
    for (team, column) in attempts {
        let cells_before = board.cells();
        let outcome = board.place(team, column);
        let now = board.filled();
        assert!(now >= last);
        assert!(now <= 16);
        assert_eq!(now, if outcome.is_ok() { last + 1 } else { last });
        for i in 0..16 {
            if cells_before[i] != E {
                assert_eq!(board.cells()[i], cells_before[i]);
            }
        }
        last = now;
    }
}

#[test]
fn deal_maps_heads_to_cookie_and_tails_to_milk() {
    let flips = [
        true, false, false, true, false, true, true, false, true, false, true, false, false,
        true, false, true,
    ];
    let board = Board::deal(&flips);
    assert_eq!(
        board.cells(),
        [C, M, M, C, M, C, C, M, C, M, C, M, M, C, M, C]
    );
    assert_eq!(board.filled(), 16);
    assert_eq!(board.winner(), Some(C));
}

#[test]
fn deal_of_equal_flips_is_won_by_that_team() {
    assert_eq!(Board::deal(&[true; 16]).winner(), Some(C));
    assert_eq!(Board::deal(&[false; 16]).winner(), Some(M));
}

#[test]
fn deal_without_a_line_is_a_draw() {
    let cells = [C, C, M, M, M, M, C, C, C, C, M, M, M, M, C, C];
    let board = Board::deal(&flips_for(cells));
    assert_eq!(board.cells(), cells);
    assert_eq!(board.winner(), Some(E));
}

#[test]
fn rising_diagonal_is_looked_at_before_falling_diagonal() {
    // cells 0, 5, 10, 15 are cookie and cells 3, 6, 9, 12 are milk
    let cells = [C, M, M, M, M, C, M, M, M, M, C, M, M, M, M, C];
    assert_eq!(Board::deal(&flips_for(cells)).winner(), Some(C));

    // the other way round
    let cells = [M, C, C, C, C, M, C, C, C, C, M, C, C, C, C, M];
    assert_eq!(Board::deal(&flips_for(cells)).winner(), Some(M));
}

#[test]
fn falling_diagonal_alone_wins() {
    let cells = [C, C, C, M, M, C, M, C, C, M, C, M, M, C, M, M];
    assert_eq!(Board::deal(&flips_for(cells)).winner(), Some(M));
}

#[test]
fn upper_row_is_looked_at_before_lower_row() {
    // top row (cells 12 to 15) against bottom row (cells 0 to 3)
    let cells = [M, M, M, M, C, M, C, M, M, C, M, C, C, C, C, C];
    let board = Board::deal(&flips_for(cells));
    assert_eq!(board.winner(), Some(C));

    let cells = [C, C, C, C, C, M, C, M, M, C, M, C, M, M, M, M];
    let board = Board::deal(&flips_for(cells));
    assert_eq!(board.winner(), Some(M));

    // second row from below (cells 4 to 7) against bottom row
    let cells = [C, C, C, C, M, M, M, M, M, C, M, C, C, M, C, M];
    let board = Board::deal(&flips_for(cells));
    assert_eq!(board.winner(), Some(M));
}

#[test]
fn left_column_is_looked_at_before_right_column() {
    // column 0 against column 3
    let cells = [C, M, C, M, C, C, M, M, C, M, M, M, C, C, C, M];
    let board = Board::deal(&flips_for(cells));
    assert_eq!(board.winner(), Some(C));

    let cells = [M, C, M, C, M, M, C, C, M, C, C, C, M, M, M, C];
    let board = Board::deal(&flips_for(cells));
    assert_eq!(board.winner(), Some(M));
}

#[test]
fn check_winner_changes_nothing_on_a_settled_board() {
    let mut board = Board::new();
    play(&mut board, &[(C, 0), (M, 1)]);
    let before = board;
    board.check_winner();
    assert_eq!(board, before);

    let mut board = Board::deal(&[true; 16]);
    let before = board;
    board.check_winner();
    assert_eq!(board, before);
}
