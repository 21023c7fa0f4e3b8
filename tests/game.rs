use tictactoe::game::{Board, MoveError, Player, State};
use tictactoe::input::{parse_input, parse_number, Input, LineOutcome};
use tictactoe::text::read_cells;

fn chars(s: &str) -> Vec<char> {
    s.chars().collect()
}

fn rendered(b: &Board) -> String {
    b.render().into_iter().collect()
}

fn occupied(b: &Board) -> usize {
    let mut n = 0;
    for row in b.grid.iter() {
        for cell in row.iter() {
            if *cell != Player::Empty {
                n += 1;
            }
        }
    }
    n
}

fn play_all(moves: &[[usize; 2]]) -> Board {
    let mut b = Board::new();
    for m in moves {
        b.play_move(*m);
    }
    b
}

/// A full game that ends in a draw:
/// O X O / O X X / X O O
const DRAW: [[usize; 2]; 9] =
    [[0, 0], [0, 1], [0, 2], [1, 1], [1, 0], [1, 2], [2, 1], [2, 0], [2, 2]];

#[test]
fn new_board_is_empty_and_in_progress() {
    let b = Board::new();
    assert_eq!(b.grid, [[Player::Empty; 3]; 3]);
    assert_eq!(b.status, State::InProgress);
    assert_eq!(b.player_current, Player::P1);
    assert!(!b.is_won());
    assert!(!b.stalemate());
    assert_eq!(b.outcome_line(), None);
    assert_eq!(rendered(&b), "...\n...\n...\n");
}

#[test]
fn row_win_for_player_one() {
    let b = play_all(&[[0, 0], [1, 1], [0, 1], [1, 0], [0, 2]]);
    assert_eq!(b.status, State::Winner(Player::P1));
    assert_eq!(b.player_current, Player::P1);
    assert!(b.is_won());
    let text = rendered(&b);
    assert_eq!(text.lines().next(), Some("OOO"));
    assert_eq!(text, "OOO\nXX.\n...\n");
    let line: String = b.outcome_line().unwrap().into_iter().collect();
    assert_eq!(line, "O wins");
}

#[test]
fn column_and_diagonal_wins_for_player_two() {
    let b = play_all(&[[0, 0], [0, 1], [2, 2], [1, 1], [1, 0], [2, 1]]);
    assert_eq!(b.status, State::Winner(Player::P2));
    let line: String = b.outcome_line().unwrap().into_iter().collect();
    assert_eq!(line, "X wins");

    let b = play_all(&[[1, 0], [0, 2], [0, 0], [1, 1], [2, 2], [2, 0]]);
    assert_eq!(b.status, State::Winner(Player::P2));
}

#[test]
fn listed_fill_completes_top_row_first() {
    // P1 takes (0,0), (0,1), (0,2), (1,1), (2,0) and P2 takes (1,0), (1,2),
    // (2,1), (2,2), alternating: P1's third move completes the top row.
    let mut b = Board::new();
    let moves = [[0, 0], [1, 0], [0, 1], [1, 2], [0, 2]];
    for m in moves {
        b.play_move(m);
    }
    assert_eq!(b.status, State::Winner(Player::P1));
    assert_eq!(b.try_move(1, 1), Err(MoveError::GameOver));
}

#[test]
fn full_board_without_line_is_stalemate() {
    let mut b = Board::new();
    for (i, m) in DRAW.iter().enumerate() {
        assert_eq!(b.status, State::InProgress);
        assert_eq!(b.try_move(m[0], m[1]), Ok(()));
        assert_eq!(occupied(&b), i + 1);
    }
    assert_eq!(b.status, State::Stalemate);
    assert!(b.stalemate());
    assert_eq!(rendered(&b), "OXO\nOXX\nXOO\n");
    let line: String = b.outcome_line().unwrap().into_iter().collect();
    assert_eq!(line, "stalemate");
}

#[test]
fn occupied_count_follows_move_count() {
    let order = [[2, 2], [1, 1], [1, 0], [2, 0], [0, 0], [0, 1], [2, 1], [1, 2], [0, 2]];
    let mut b = Board::new();
    for (i, m) in order.iter().enumerate() {
        b.play_move(*m);
        assert_eq!(occupied(&b), i + 1);
    }
    assert_eq!(b.status, State::Stalemate);
}

#[test]
fn turn_alternates_with_move_parity() {
    let mut b = Board::new();
    for (i, m) in DRAW.iter().take(8).enumerate() {
        b.play_move(*m);
        assert_eq!(b.status, State::InProgress);
        let n = i + 1;
        let expected = if n % 2 == 0 { Player::P1 } else { Player::P2 };
        assert_eq!(b.player_current, expected);
    }
}

#[test]
fn winning_move_ends_the_game() {
    let mut b = play_all(&[[0, 0], [1, 1], [0, 1], [1, 0]]);
    assert_eq!(b.try_move(0, 2), Ok(()));
    assert_eq!(b.status, State::Winner(Player::P1));
    for r in 0..3 {
        for c in 0..3 {
            assert_eq!(b.try_move(r, c), Err(MoveError::GameOver));
        }
    }
    assert_eq!(rendered(&b), "OOO\nXX.\n...\n");
}

#[test]
fn occupied_cell_is_not_overwritten() {
    let mut b = Board::new();
    assert_eq!(b.try_move(1, 1), Ok(()));
    assert_eq!(b.try_move(1, 1), Err(MoveError::Occupied));
    assert_eq!(b.grid[1][1], Player::P1);
    assert_eq!(b.player_current, Player::P2);
    assert_eq!(occupied(&b), 1);
}

#[test]
fn checked_move_refusals() {
    let mut b = Board::new();
    assert_eq!(b.try_move(3, 0), Err(MoveError::OutOfRange));
    assert_eq!(b.try_move(0, 7), Err(MoveError::OutOfRange));
    assert_eq!(b.try_move(1, 2), Ok(()));
    assert_eq!(b.try_move(1, 2), Err(MoveError::Occupied));
    assert_eq!(b.grid[1][2], Player::P1);
    assert_eq!(b.player_current, Player::P2);
}

#[test]
fn single_token_line_is_ignored() {
    let mut b = play_all(&[[0, 0], [1, 1]]);
    let before = rendered(&b);
    assert_eq!(b.handle_line(&chars("1")), LineOutcome::Ignored);
    assert_eq!(rendered(&b), before);
    assert_eq!(b.status, State::InProgress);
    assert_eq!(b.player_current, Player::P1);
}

#[test]
fn handle_line_plays_and_reports() {
    let mut b = Board::new();
    assert_eq!(b.handle_line(&chars("")), LineOutcome::Ignored);
    assert_eq!(b.handle_line(&chars("a 1\n")), LineOutcome::NotANumber);
    assert_eq!(b.handle_line(&chars("1 1\n")), LineOutcome::Played);
    assert_eq!(b.grid[1][1], Player::P1);
    assert_eq!(b.handle_line(&chars("1 1\n")), LineOutcome::Rejected(MoveError::Occupied));
    assert_eq!(b.handle_line(&chars("5 0\n")), LineOutcome::Rejected(MoveError::OutOfRange));
    assert_eq!(b.player_current, Player::P2);
    assert_eq!(occupied(&b), 1);
}

#[test]
fn parse_input_tokens() {
    assert_eq!(parse_input(&chars("1")), Input::TooFewTokens);
    assert_eq!(parse_input(&chars("   \t\n")), Input::TooFewTokens);
    assert_eq!(parse_input(&chars("0 2")), Input::Coords(0, 2));
    assert_eq!(parse_input(&chars("  2\t1  \n")), Input::Coords(2, 1));
    assert_eq!(parse_input(&chars("1 2 3")), Input::Coords(1, 2));
    assert_eq!(parse_input(&chars("1\u{3000}2")), Input::Coords(1, 2));
    assert_eq!(parse_input(&chars("+1 02")), Input::Coords(1, 2));
    assert_eq!(parse_input(&chars("1 x")), Input::NotANumber);
    assert_eq!(parse_input(&chars("-1 2")), Input::NotANumber);
    assert_eq!(parse_input(&chars("12 345")), Input::Coords(12, 345));
}

#[test]
fn parse_number_matches_std() {
    for s in ["0", "7", "+9", "+", "-3", "", "1a", "007", "18446744073709551615", "18446744073709551616",
        "99999999999999999999999", "٣"] {
        let expected = s.parse::<usize>().ok();
        assert_eq!(parse_number(&chars(s)), expected, "token {:?}", s);
    }
}

#[test]
fn symbols_round_trip() {
    for p in [Player::P1, Player::P2, Player::Empty] {
        assert_eq!(Player::from_symbol(p.symbol()), Some(p));
    }
    assert_eq!(Player::P1.symbol(), 'O');
    assert_eq!(Player::P2.symbol(), 'X');
    assert_eq!(Player::Empty.symbol(), '.');
    assert_eq!(Player::from_symbol('o'), None);
}

#[test]
fn rendered_grid_reads_back() {
    let b = play_all(&[[0, 0], [1, 1], [2, 0], [0, 2]]);
    let cells = read_cells(&b.render()).unwrap();
    let expected: Vec<Player> = b.grid.iter().flat_map(|r| r.iter().copied()).collect();
    assert_eq!(cells, expected);
    assert_eq!(read_cells(&chars("O?X\n")), None);
    assert_eq!(read_cells(&chars("O.\nX")), Some(vec![Player::P1, Player::Empty, Player::P2]));
}
