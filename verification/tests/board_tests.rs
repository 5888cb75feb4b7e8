use tictactoe::board::{Board, GameError, GameResult, Position, Token};

fn at(row: u8, column: u8) -> Position {
    Position::new(row, column).unwrap()
}

fn board(contents: &str) -> Board {
    Board::from_string(contents).unwrap()
}

#[test]
fn test_player_equality() {
    let player1 = Token::X;
    let player2 = Token::O;
    let player3 = Token::X;
    assert_ne!(player1, player2);
    assert_eq!(player1, player3);
}

#[test]
fn test_player_display() {
    let x = Token::X;
    let o = Token::O;
    assert_eq!(format!("{}", x.to_string()), "X");
    assert_eq!(format!("{}", o.to_string()), "O");
    assert_eq!(format!("{}{}", x.to_string(), o.to_string()), "XO");
}

#[test]
fn test_position_ctor_success() {
    assert_eq!(Position::new(0, 0).unwrap().row(), 0);
    assert_eq!(Position::new(0, 0).unwrap().column(), 0);

    assert_eq!(Position::new(1, 2).unwrap().row(), 1);
    assert_eq!(Position::new(1, 2).unwrap().column(), 2);
}

#[test]
fn position_off_the_grid_is_invalid() {
    assert_eq!(Position::new(3, 0), Err(GameError::InvalidPosition));
    assert_eq!(Position::new(0, 3), Err(GameError::InvalidPosition));
    assert_eq!(Position::new(255, 255), Err(GameError::InvalidPosition));
    assert!(Position::new(2, 2).is_ok());
}

#[test]
fn center_is_row_one_column_one() {
    assert_eq!(Position::center(), at(1, 1));
}

#[test]
fn token_from_char_reads_the_three_characters() {
    assert_eq!(Token::from_char('X'), Ok(Some(Token::X)));
    assert_eq!(Token::from_char('O'), Ok(Some(Token::O)));
    assert_eq!(Token::from_char('-'), Ok(None));
    assert_eq!(Token::from_char(' '), Err(GameError::InvalidCharacter));
    assert_eq!(Token::from_char('x'), Err(GameError::InvalidCharacter));
}

#[test]
fn test_empty_board() {
    let empty = Board::new();
    for row in 0..2 {
        for column in 0..2 {
            assert_eq!(None, empty.token_at(at(row, column)));
        }
    }
}

#[test]
fn new_board_is_empty_at_turn_one() {
    let empty = Board::new();
    for row in 0..3 {
        for column in 0..3 {
            assert_eq!(None, empty.token_at(at(row, column)));
            assert!(empty.is_position_unused(at(row, column)));
        }
    }
    assert_eq!(1, empty.turn_number());
    assert_eq!(Token::X, empty.whose_turn());
}

#[test]
fn test_board_from_string() {
    let full_board = board("XOX\
                            OXO\
                            XOX");
    assert_eq!(Some(Token::X), full_board.token_at(at(0, 0)));
    assert_eq!(10, full_board.turn_number());

    let empty_board = board("---\
                             ---\
                             ---");
    assert_eq!(None, empty_board.token_at(at(0, 0)));
    assert_eq!(1, empty_board.turn_number());
    assert_eq!(Board::new(), empty_board);
}

#[test]
fn from_string_reads_cells_row_by_row() {
    let read = board("XO-\
                      -X-\
                      --O");
    assert_eq!(Some(Token::X), read.token_at(at(0, 0)));
    assert_eq!(Some(Token::O), read.token_at(at(0, 1)));
    assert_eq!(None, read.token_at(at(0, 2)));
    assert_eq!(None, read.token_at(at(1, 0)));
    assert_eq!(Some(Token::X), read.token_at(at(1, 1)));
    assert_eq!(None, read.token_at(at(1, 2)));
    assert_eq!(None, read.token_at(at(2, 0)));
    assert_eq!(None, read.token_at(at(2, 1)));
    assert_eq!(Some(Token::O), read.token_at(at(2, 2)));
    assert_eq!(5, read.turn_number());
    assert_eq!(Token::X, read.whose_turn());
}

#[test]
fn from_string_rejects_bad_character() {
    assert_eq!(
        Board::from_string("XOX\
                            O O\
                            XOX"),
        Err(GameError::InvalidCharacter)
    );
}

#[test]
fn from_string_rejects_bad_length() {
    assert_eq!(
        Board::from_string("XOX\
                            OXO\
                            XOXO"),
        Err(GameError::InvalidLength)
    );
    assert_eq!(Board::from_string(""), Err(GameError::InvalidLength));
    assert_eq!(Board::from_string("XOXOXOXO"), Err(GameError::InvalidLength));
}

#[test]
fn from_string_rejects_bad_ratio() {
    assert_eq!(
        Board::from_string("XXX\
                            ---\
                            --O"),
        Err(GameError::InvalidTokenCount)
    );
    assert_eq!(Board::from_string("O--------"), Err(GameError::InvalidTokenCount));
    assert_eq!(Board::from_string("XX-------"), Err(GameError::InvalidTokenCount));
}

#[test]
fn from_string_rejects_multiple_winners() {
    assert_eq!(
        Board::from_string("XXX\
                            OOO\
                            ---"),
        Err(GameError::CorruptState)
    );
}

#[test]
fn from_string_checks_the_ratio_before_the_characters() {
    assert_eq!(Board::from_string("XX?------"), Err(GameError::InvalidTokenCount));
    assert_eq!(Board::from_string("XO?------"), Err(GameError::InvalidCharacter));
}

#[test]
fn test_empty_positions_full_board() {
    let full_board = board("XOX\
                            OOX\
                            XXO");
    assert_eq!(full_board.empty_positions(), Vec::new());
    assert_eq!(false, full_board.is_position_unused(at(0, 0)));
    assert_eq!(false, full_board.is_position_unused(at(2, 2)));
    assert_eq!(false, full_board.is_position_unused(at(2, 2)));
}

#[test]
fn test_empty_positions_one_position_empty() {
    let one_left = board("XOX\
                          OO-\
                          XXO");
    assert_eq!(one_left.empty_positions(), vec![at(1, 2)]);
    assert_eq!(true, one_left.is_position_unused(at(1, 2)));
    assert_eq!(false, one_left.is_position_unused(at(2, 2)));
}

#[test]
fn test_empty_positions_two_positions_empty() {
    let two_left = board("X-X\
                          OOX\
                          -XO");
    assert_eq!(two_left.empty_positions(), vec![at(0, 1), at(2, 0)]);
    assert_eq!(true, two_left.is_position_unused(at(0, 1)));
    assert_eq!(true, two_left.is_position_unused(at(2, 0)));
    assert_eq!(false, two_left.is_position_unused(at(2, 2)));
}

#[test]
fn test_empty_positions_empty_board() {
    let two_left = Board::new();
    assert_eq!(
        two_left.empty_positions(),
        vec![
            at(0, 0),
            at(0, 1),
            at(0, 2),
            at(1, 0),
            at(1, 1),
            at(1, 2),
            at(2, 0),
            at(2, 1),
            at(2, 2)
        ]
    );
}

#[test]
fn empty_and_occupied_cells_add_up_to_nine() {
    let mut board = Board::new();
    let moves = [(1, 1), (0, 0), (0, 2), (2, 0), (1, 0), (1, 2), (0, 1), (2, 1), (2, 2)];
    for (played, (row, column)) in moves.iter().enumerate() {
        assert_eq!(board.empty_positions().len() + played, 9);
        let token = board.whose_turn();
        board.add_move(token, at(*row, *column)).unwrap();
    }
    assert_eq!(board.empty_positions().len(), 0);
    assert_eq!(board.get_game_result(), GameResult::Draw);
}

#[test]
fn test_whose_turn() {
    let mut board = Board::new();
    assert_eq!(board.whose_turn(), Token::X);
    board.add_move(Token::X, at(0, 0)).unwrap();
    assert_eq!(board.whose_turn(), Token::O);
}

#[test]
fn test_add_to_board() {
    let mut board = Board::new();

    board.add_move(Token::X, at(0, 0)).unwrap();
    assert_eq!(Some(Token::X), board.token_at(at(0, 0)));
    assert_eq!(2, board.turn_number());

    board.add_move(Token::O, at(1, 1)).unwrap();
    assert_eq!(Some(Token::O), board.token_at(at(1, 1)));
    assert_eq!(3, board.turn_number());

    board.add_move(Token::X, at(0, 1)).unwrap();
    board.add_move(Token::O, at(0, 2)).unwrap();
    board.add_move(Token::X, at(1, 0)).unwrap();
    board.add_move(Token::O, at(1, 2)).unwrap();
    board.add_move(Token::X, at(2, 0)).unwrap();
    // X has completed the left column: the game is over and takes no further move.
    assert_eq!(GameResult::Win(Token::X), board.get_game_result());
    assert_eq!(Err(GameError::IllegalMove), board.add_move(Token::O, at(2, 1)));
    assert_eq!(8, board.turn_number());
    assert_eq!(Err(GameError::IllegalMove), board.add_move(Token::X, at(2, 2)));

    assert_eq!(Some(Token::X), board.token_at(at(0, 1)));
    assert_eq!(Some(Token::X), board.token_at(at(1, 0)));
    assert_eq!(Some(Token::X), board.token_at(at(2, 0)));
    assert_eq!(None, board.token_at(at(2, 2)));

    assert_eq!(Some(Token::O), board.token_at(at(0, 2)));
    assert_eq!(Some(Token::O), board.token_at(at(1, 2)));
    assert_eq!(None, board.token_at(at(2, 1)));
}

#[test]
fn moves_fill_the_board_to_a_draw() {
    let mut board = Board::new();
    let moves = [(0, 0), (1, 1), (0, 1), (0, 2), (2, 0), (1, 0), (1, 2), (2, 1), (2, 2)];
    for (played, (row, column)) in moves.iter().enumerate() {
        assert_eq!(board.get_game_result(), GameResult::InProgress);
        assert_eq!(played as u8 + 1, board.turn_number());
        let token = board.whose_turn();
        assert_eq!(board.add_move(token, at(*row, *column)), Ok(()));
        assert_eq!(Some(token), board.token_at(at(*row, *column)));
    }
    assert_eq!(10, board.turn_number());
    assert_eq!(board.get_game_result(), GameResult::Draw);
    assert_eq!(board, Board::from_string("XXOOOXXOX").unwrap());
}

#[test]
fn moves_read_back_cell_by_cell() {
    let mut board = Board::new();
    board.add_move(Token::X, at(2, 1)).unwrap();
    board.add_move(Token::O, at(0, 0)).unwrap();
    board.add_move(Token::X, at(1, 2)).unwrap();
    let expected = [
        [false, true, true],
        [true, true, false],
        [true, false, true],
    ];
    for row in 0..3u8 {
        for column in 0..3u8 {
            assert_eq!(
                board.is_position_unused(at(row, column)),
                expected[row as usize][column as usize]
            );
        }
    }
    assert_eq!(board, Board::from_string("O----X-X-").unwrap());
}

#[test]
fn overwriting_a_position_is_an_illegal_move() {
    let mut board = Board::new();

    board.add_move(Token::X, at(1, 2)).unwrap();
    let before = board;
    assert_eq!(board.add_move(Token::O, at(1, 2)), Err(GameError::IllegalMove));
    assert_eq!(board.add_move(Token::X, at(1, 2)), Err(GameError::IllegalMove));
    assert_eq!(board, before);
}

#[test]
fn wrong_starting_player_is_an_illegal_move() {
    let mut board = Board::new();

    assert_eq!(board.add_move(Token::O, at(1, 1)), Err(GameError::IllegalMove));
    assert_eq!(board, Board::new());
}

#[test]
fn wrong_players_turn_is_an_illegal_move() {
    let mut board = Board::new();

    board.add_move(Token::X, at(1, 1)).unwrap();
    assert_eq!(board.add_move(Token::X, at(2, 2)), Err(GameError::IllegalMove));
    assert_eq!(board.turn_number(), 2);
    assert_eq!(board.token_at(at(2, 2)), None);
}

#[test]
fn finished_game_accepts_no_move() {
    let mut played = Board::new();
    played.add_move(Token::X, at(0, 0)).unwrap();
    played.add_move(Token::O, at(1, 0)).unwrap();
    played.add_move(Token::X, at(0, 1)).unwrap();
    played.add_move(Token::O, at(1, 1)).unwrap();
    played.add_move(Token::X, at(0, 2)).unwrap();
    assert_eq!(played.get_game_result(), GameResult::Win(Token::X));
    let before = played;
    assert_eq!(played.add_move(Token::O, at(2, 2)), Err(GameError::IllegalMove));
    assert_eq!(played.add_move(Token::O, at(1, 2)), Err(GameError::IllegalMove));
    assert_eq!(played.add_move(Token::X, at(2, 2)), Err(GameError::IllegalMove));
    assert_eq!(played, before);

    let mut won = board("XXX\
                         OO-\
                         ---");
    for row in 0..3 {
        for column in 0..3 {
            assert_eq!(won.add_move(Token::O, at(row, column)), Err(GameError::IllegalMove));
            assert_eq!(won.add_move(Token::X, at(row, column)), Err(GameError::IllegalMove));
        }
    }
    assert_eq!(won.get_game_result(), GameResult::Win(Token::X));
    assert_eq!(won.turn_number(), 6);
}

#[test]
fn full_board_accepts_no_move() {
    let mut full = board("XOX\
                          XXO\
                          OXO");
    for row in 0..3 {
        for column in 0..3 {
            assert_eq!(full.add_move(Token::X, at(row, column)), Err(GameError::IllegalMove));
            assert_eq!(full.add_move(Token::O, at(row, column)), Err(GameError::IllegalMove));
        }
    }
}

#[test]
fn test_board_display() {
    let board1 = board("XOX\
                        OXO\
                        OXX");
    assert_eq!(format!("{}", board1.to_string()), "┌───┐\n│XOX│\n│OXO│\n│OXX│\n└───┘");

    let board2 = board("XOX\
                        ---\
                        OOX");
    println!("{}", board2.to_string());
    assert_eq!(format!("{}", board2.to_string()), "┌───┐\n│XOX│\n│   │\n│OOX│\n└───┘");
}

#[test]
fn test_winning_game() {
    let mut played = Board::new();

    played.add_move(Token::X, at(0, 0)).unwrap();
    played.add_move(Token::O, at(1, 0)).unwrap();
    played.add_move(Token::X, at(0, 1)).unwrap();
    played.add_move(Token::O, at(1, 1)).unwrap();
    played.add_move(Token::X, at(0, 2)).unwrap();
    assert_eq!(played.get_game_result(), GameResult::Win(Token::X));

    let board1 = board("XXX\
                        OO-\
                        ---");
    assert_eq!(board1.get_game_result(), GameResult::Win(Token::X));

    let board2 = board("XX-\
                        OOO\
                        X--");
    assert_eq!(board2.get_game_result(), GameResult::Win(Token::O));

    let board3 = board("XX-\
                        X--\
                        OOO");
    assert_eq!(board3.get_game_result(), GameResult::Win(Token::O));

    let board4 = board("XO-\
                        XO-\
                        X--");
    assert_eq!(board4.get_game_result(), GameResult::Win(Token::X));

    let board5 = board("XO-\
                        -O-\
                        XOX");
    assert_eq!(board5.get_game_result(), GameResult::Win(Token::O));

    let board6 = board("-OX\
                        --X\
                        -OX");
    assert_eq!(board6.get_game_result(), GameResult::Win(Token::X));

    let board7 = board("X-O\
                        -X-\
                        O-X");
    assert_eq!(board7.get_game_result(), GameResult::Win(Token::X));

    let board8 = board("X-O\
                        XO-\
                        O-X");
    assert_eq!(board8.get_game_result(), GameResult::Win(Token::O));
} // test_winning_game()

#[test]
fn each_line_alone_wins() {
    let lines = [
        "XXXOO----",
        "OO-XXX---",
        "OO----XXX",
        "XOOX--X--",
        "OXO-X--X-",
        "OOX--X--X",
        "XOO-X---X",
        "OOX-X-X--",
    ];
    for line in lines.iter() {
        assert_eq!(board(line).get_game_result(), GameResult::Win(Token::X));
    }
}

#[test]
fn test_no_winner_game() {
    let board = board("XOX\
                       XXO\
                       OXO");
    assert_eq!(board.get_game_result(), GameResult::Draw);
}

#[test]
fn test_in_progress_game() {
    let board1 = Board::new();
    assert_eq!(board1.get_game_result(), GameResult::InProgress);

    let board2 = board("XOX\
                        X-O\
                        OXO");
    assert_eq!(board2.get_game_result(), GameResult::InProgress);
}
