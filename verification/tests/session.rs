use milk_and_cookies::board::{Board, MoveError};
use milk_and_cookies::session::{Session, RNG_SEED};
use milk_and_cookies::tile::Tile;
use rand::rngs::StdRng;
use rand::{Rng, SeedableRng};

/// Draws sixteen flips straight from the generator.
fn sixteen_flips(rng: &mut StdRng) -> [bool; 16] {
    let mut flips = [false; 16];
    for flip in flips.iter_mut() {
        *flip = rng.gen();
    }
    flips
}

#[test]
fn seed_is_fixed() {
    assert_eq!(RNG_SEED, 2024);
}

#[test]
fn new_session_holds_an_empty_board() {
    let session = Session::new();
    assert_eq!(session.snapshot(), Board::new());
}

#[test]
fn snapshot_does_not_change_the_session() {
    let mut session = Session::new();
    session.place(Tile::Cookie, 1).unwrap();
    let first = session.snapshot();
    let second = session.snapshot();
    assert_eq!(first, second);
    assert_eq!(first.cells()[1], Tile::Cookie);
}

#[test]
fn place_returns_the_board_after_the_move() {
    let mut session = Session::new();
    let board = session.place(Tile::Milk, 3).unwrap();
    assert_eq!(board.cells()[3], Tile::Milk);
    assert_eq!(board.filled(), 1);
    assert_eq!(session.snapshot(), board);
}

#[test]
fn refused_place_returns_the_unchanged_board() {
    let mut session = Session::new();
    for _ in 0..2 {
        session.place(Tile::Cookie, 0).unwrap();
        session.place(Tile::Milk, 0).unwrap();
    }
    let before = session.snapshot();
    assert_eq!(
        session.place(Tile::Cookie, 0),
        Err((MoveError::ColumnFull, before))
    );
    assert_eq!(session.snapshot(), before);

    let mut session = Session::new();
    for column in 0..4 {
        session.place(Tile::Milk, column).unwrap();
    }
    let won = session.snapshot();
    assert_eq!(won.winner(), Some(Tile::Milk));
    assert_eq!(
        session.place(Tile::Cookie, 2),
        Err((MoveError::GameOver, won))
    );
    assert_eq!(session.snapshot(), won);
}

#[test]
fn reset_returns_to_an_empty_board() {
    let mut session = Session::new();
    for column in 0..4 {
        session.place(Tile::Milk, column).unwrap();
    }
    assert_eq!(session.reset(), Board::new());
    assert_eq!(session.snapshot(), Board::new());
    session.place(Tile::Cookie, 0).unwrap();
}

#[test]
fn random_board_deals_from_the_seeded_stream() {
    let mut rng = StdRng::seed_from_u64(2024);
    let mut session = Session::new();
    for _ in 0..5 {
        let expected = Board::deal(&sixteen_flips(&mut rng));
        assert_eq!(session.random_board(), expected);
        assert_eq!(session.snapshot(), expected);
    }
}

#[test]
fn random_board_moves_the_stream_on() {
    let mut session = Session::new();
    let mut boards = Vec::new();
    for _ in 0..8 {
        boards.push(session.random_board());
    }
    assert!(boards.iter().any(|b| *b != boards[0]));
}

#[test]
fn new_random_draws_sixteen_flips_in_order() {
    for seed in [0u64, 1, 7, 2024, u64::MAX] {
        let mut direct = StdRng::seed_from_u64(seed);
        let mut used = StdRng::seed_from_u64(seed);
        let first = Board::new_random(&mut used);
        assert_eq!(first, Board::deal(&sixteen_flips(&mut direct)));
        let second = Board::new_random(&mut used);
        assert_eq!(second, Board::deal(&sixteen_flips(&mut direct)));
        assert_eq!(used, direct);
    }
}

#[test]
fn random_board_is_always_decided() {
    let mut session = Session::new();
    for _ in 0..200 {
        let board = session.random_board();
        assert!(board.winner().is_some());
        assert_eq!(board.filled(), 16);
        assert!(board.cells().iter().all(|t| *t != Tile::Empty));
    }
}

#[test]
fn random_board_ends_the_game() {
    let mut session = Session::new();
    let board = session.random_board();
    for column in 0..4 {
        assert_eq!(
            session.place(Tile::Cookie, column),
            Err((MoveError::ColumnFull, board))
        );
    }
}

#[test]
fn reset_rewinds_the_stream() {
    let mut session = Session::new();
    let first = session.random_board();
    let second = session.random_board();
    session.reset();
    assert_eq!(session.random_board(), first);
    assert_eq!(session.random_board(), second);
    session.place(Tile::Milk, 0).unwrap_err();
    session.reset();
    session.place(Tile::Milk, 0).unwrap();
    assert_eq!(session.random_board(), first);
}

#[test]
fn two_sessions_driven_alike_show_the_same() {
    let mut a = Session::new();
    let mut b = Session::new();
    // different pasts
    a.random_board();
    a.random_board();
    b.place(Tile::Cookie, 2).unwrap();
    assert_eq!(a.reset().to_text(), b.reset().to_text());
    assert_eq!(a.random_board().to_text(), b.random_board().to_text());
    assert_eq!(a.random_board().to_text(), b.random_board().to_text());
    assert_eq!(a.reset(), b.reset());
    assert_eq!(
        a.place(Tile::Milk, 1).unwrap().to_text(),
        b.place(Tile::Milk, 1).unwrap().to_text()
    );
    assert_eq!(a.random_board().render(), b.random_board().render());
}

#[test]
#[allow(non_snake_case)]
fn first_deals_of_a_fresh_session() {
    let (C, M, E) = (Tile::Cookie, Tile::Milk, Tile::Empty);
    let mut session = Session::new();
    let first = session.random_board();
    assert_eq!(
        first.cells(),
        [C, C, C, C, M, C, C, M, M, M, M, M, C, M, C, M]
    );
    // rows 0 and 2 are both complete; the upper one is found first
    assert_eq!(first.winner(), Some(M));
    assert_eq!(
        first.to_text(),
        "⬜🍪🥛🍪🥛⬜\n⬜🥛🥛🥛🥛⬜\n⬜🥛🍪🍪🥛⬜\n⬜🍪🍪🍪🍪⬜\n⬜⬜⬜⬜⬜⬜\n🥛 wins!\n"
    );
    let second = session.random_board();
    assert_eq!(
        second.cells(),
        [C, M, C, C, M, C, M, C, M, C, C, C, C, M, M, M]
    );
    assert_eq!(second.winner(), Some(E));
    assert_eq!(
        second.to_text(),
        "⬜🍪🥛🥛🥛⬜\n⬜🥛🍪🍪🍪⬜\n⬜🥛🍪🥛🍪⬜\n⬜🍪🥛🍪🍪⬜\n⬜⬜⬜⬜⬜⬜\nNo winner.\n"
    );
}
