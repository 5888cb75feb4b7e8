use tictactoe::board::{Board, GameResult, Position, Token};
use tictactoe::game::Game;
use tictactoe::human::{
    move_from_answer, position_from_answer, read_move, read_token, token_from_answer, Rejection,
};
use tictactoe::optimal::OptimalPlayer;
use tictactoe::player::Player;
use tictactoe::strategies::{nth_empty_position, RandomPlayer, SimpletonPlayer};

fn cell(row: u8, column: u8) -> Position {
    Position::new(row, column).unwrap()
}

fn layout(contents: &str) -> Board {
    Board::from_string(contents).unwrap()
}

#[test]
fn test_game_between_random_players() {
    const GAME_COUNT: u32 = 1000; // 100 games is enough to make reasonable predictions about outcomes.

    let mut draw_count = 0;
    let mut x_win_count = 0;
    let mut o_win_count = 0;
    println!(
        "Simulating {} games between players who play randomly.",
        GAME_COUNT
    );
    for _i in 1..GAME_COUNT + 1 {
        let x = Box::new(RandomPlayer {});
        let o = Box::new(RandomPlayer {});
        let game = Game::new(x, o);
        match game.result() {
            GameResult::Draw => draw_count += 1,
            GameResult::Win(Token::X) => x_win_count += 1,
            GameResult::Win(Token::O) => o_win_count += 1,
            GameResult::InProgress => panic!("game should not be still in progress!"),
        }
    }
    println!("Player X won {} games.", x_win_count);
    println!("Player O won {} games.", o_win_count);
    println!("{} games ended in a draw.", draw_count);
    println!("With {} games played, the probability of having each player win some games approaches 100%", GAME_COUNT);
    println!("Similarly, the probability of having some games end in a draw approaches 100%");
    println!("Since X goes first, and has the advantage, the probability of X winning more games than O approaches 100%.");
    assert_ne!(
        x_win_count, 0,
        "X should have won at least one of the {} games played!",
        GAME_COUNT
    );
    assert_ne!(
        o_win_count, 0,
        "O should have won at least one of the {} games played!",
        GAME_COUNT
    );
    assert!(
        x_win_count > o_win_count,
        "X should have won more games than O!"
    );
    assert_ne!(draw_count, 0, "Some games should have ended in a draw!");
    assert_eq!(x_win_count + o_win_count + draw_count, GAME_COUNT);
}

#[test]
fn game_between_simpletons_is_won_by_x_on_the_diagonal() {
    let game = Game::new(SimpletonPlayer {}, SimpletonPlayer {});
    assert_eq!(game.result(), GameResult::Win(Token::X));
    assert_eq!(game.board(), layout("XOXOXOX--"));
}

#[test]
fn boxed_trait_objects_play() {
    let x: Box<dyn Player> = Box::new(SimpletonPlayer {});
    let o: Box<dyn Player> = Box::new(OptimalPlayer {});
    let game = Game::new(x, o);
    assert_ne!(game.result(), GameResult::InProgress);
    assert_ne!(game.result(), GameResult::Win(Token::X));
}

#[test]
fn simpleton_takes_the_first_empty_position() {
    let mut player = SimpletonPlayer {};
    assert_eq!(player.take_turn(&Board::new()), cell(0, 0));
    assert_eq!(player.take_turn(&layout("XO-------")), cell(0, 2));
    assert_eq!(player.take_turn(&layout("XOXOXO-X-")), cell(2, 0));
}

#[test]
fn random_player_moves_to_an_empty_position() {
    let mut player = RandomPlayer {};
    let board = layout("XOX\
                        -O-\
                        XXO");
    let mut seen_first = false;
    let mut seen_second = false;
    for _i in 0..200 {
        let choice = player.take_turn(&board);
        assert!(board.is_position_unused(choice));
        if choice == cell(1, 0) {
            seen_first = true;
        }
        if choice == cell(1, 2) {
            seen_second = true;
        }
    }
    assert!(seen_first && seen_second);

    let single = layout("XOX\
                         OO-\
                         XXO");
    assert_eq!(player.take_turn(&single), cell(1, 2));
}

#[test]
fn drawn_number_fixes_the_random_move() {
    let board = layout("X-X\
                        OOX\
                        -XO");
    assert_eq!(nth_empty_position(&board, 0), cell(0, 1));
    assert_eq!(nth_empty_position(&board, 1), cell(2, 0));
    let empty = Board::new();
    for drawn in 0..9usize {
        assert_eq!(
            nth_empty_position(&empty, drawn),
            cell((drawn / 3) as u8, (drawn % 3) as u8)
        );
    }
}

#[test]
fn test_random_played_boards_differ() {
    let mut player = RandomPlayer {};
    const MAX_GAMES: u32 = 100;
    const MAX_SAME_GAMES: u32 = 35; // Determined by running this many many times!
    println!("Play {} games with players that move randomly.", MAX_GAMES);
    println!("The games should be different!");
    let mut games = Vec::<Board>::new();
    for game in 1..MAX_GAMES + 1 {
        let mut board = Board::new();
        for _turn in 1..10 {
            let whose_turn = board.whose_turn();
            let position = player.take_turn(&board);
            board.add_move(whose_turn, position).unwrap();
            if let GameResult::Win(_winner) = board.get_game_result() {
                break;
            }
        }
        println!("Game #{}:\n{}", game, board.to_string());
        games.push(board);
    }

    let mut same_game_count = 0;
    for game1 in 0..MAX_GAMES {
        for game2 in game1 + 1..MAX_GAMES {
            if games[game1 as usize] == games[game2 as usize] {
                println!("Games {} and {} are the same!", game1 + 1, game2 + 1);
                same_game_count += 1;
            }
        }
    }

    // Testing indicates that although some games will be the same, not too many will be.
    assert!(same_game_count < MAX_SAME_GAMES + 1);
}

#[test]
fn test_draws_against_itself() {
    let x = OptimalPlayer {};
    let o = OptimalPlayer {};
    let game = Game::new(x, o);
    assert_eq!(game.result(), GameResult::Draw);
}

#[test]
fn test_never_loses() {
    const NUM_GAMES: u32 = 50;
    for _i in 0..NUM_GAMES {
        let x = OptimalPlayer {};
        let o = RandomPlayer {};
        let game = Game::new(x, o);
        assert_ne!(game.result(), GameResult::Win(Token::O));

        let x = RandomPlayer {};
        let o = OptimalPlayer {};
        let game = Game::new(x, o);
        assert_ne!(game.result(), GameResult::Win(Token::X));
    }
}

#[test]
fn test_single_move_left() {
    let mut player = OptimalPlayer {};
    let board = layout(
        "XOX\
         OO-\
         XXO",
    );
    assert_eq!(player.take_turn(&board), cell(1, 2));
}

#[test]
fn test_winning_move() {
    let mut player = OptimalPlayer {};

    println!("Scenario #1");
    let board = layout(
        "XO-\
         OO-\
         XX-",
    );
    assert_eq!(
        player.take_turn(&board),
        cell(2, 2),
        "Scenario #1 failed"
    );

    println!("Scenario #1");
    let board = layout(
        "XOX\
         OO-\
         XX-",
    );
    assert_eq!(
        player.take_turn(&board),
        cell(1, 2),
        "Scenario #2 failed"
    );
}

#[test]
fn test_prevent_loss() {
    let mut player = OptimalPlayer {};
    let board = layout(
        "XOO\
         OX-\
         XX-",
    );
    assert_eq!(player.take_turn(&board), cell(2, 2));
}

#[test]
fn optimal_player_takes_the_free_center() {
    let player = OptimalPlayer {};
    assert_eq!(player.get_best_move(&Board::new()), cell(1, 1));
    assert_eq!(player.get_best_move(&layout("X--------")), cell(1, 1));
}

#[test]
fn optimal_player_settles_for_the_first_draw() {
    let player = OptimalPlayer {};
    let board = layout("XOX\
                        -O-\
                        OXX");
    assert_eq!(player.get_best_move(&board), cell(1, 2));
    assert_eq!(player.get_eventual_game_result(&board), GameResult::Draw);
}

#[test]
fn optimal_player_falls_back_to_the_first_empty_position() {
    let player = OptimalPlayer {};
    let board = layout("X-X\
                        -O-\
                        X-O");
    assert_eq!(player.get_best_move(&board), cell(0, 1));
    assert_eq!(
        player.get_eventual_game_result(&board),
        GameResult::Win(Token::X)
    );
}

#[test]
fn eventual_result_of_a_finished_game_is_its_result() {
    let player = OptimalPlayer {};
    assert_eq!(
        player.get_eventual_game_result(&layout("XXXOO----")),
        GameResult::Win(Token::X)
    );
    assert_eq!(
        player.get_eventual_game_result(&layout("XOXXXOOXO")),
        GameResult::Draw
    );
}

#[test]
fn eventual_result_of_the_empty_board_is_a_draw() {
    let player = OptimalPlayer {};
    assert_eq!(
        player.get_eventual_game_result(&Board::new()),
        GameResult::Draw
    );
}

#[test]
fn optimal_player_never_loses_to_any_opponent() {
    fn explore(board: Board, optimal: Token, player: &OptimalPlayer) {
        let result = board.get_game_result();
        if result != GameResult::InProgress {
            assert_ne!(result, GameResult::Win(if optimal == Token::X {
                Token::O
            } else {
                Token::X
            }));
            return;
        }
        if board.whose_turn() == optimal {
            let mut next = board;
            next.add_move(optimal, player.get_best_move(&board)).unwrap();
            explore(next, optimal, player);
        } else {
            for reply in board.empty_positions() {
                let mut next = board;
                next.add_move(board.whose_turn(), reply).unwrap();
                explore(next, optimal, player);
            }
        }
    }
    let player = OptimalPlayer {};
    explore(Board::new(), Token::X, &player);
    explore(Board::new(), Token::O, &player);
}

#[test]
fn answers_name_tokens() {
    assert_eq!(token_from_answer("X"), Some(Token::X));
    assert_eq!(token_from_answer("x"), Some(Token::X));
    assert_eq!(token_from_answer("O"), Some(Token::O));
    assert_eq!(token_from_answer("o"), Some(Token::O));
    assert_eq!(token_from_answer("0"), None);
    assert_eq!(token_from_answer(""), None);
    assert_eq!(token_from_answer("XO"), None);
    assert_eq!(token_from_answer(" X"), None);
    assert_eq!(read_token(" X\n"), Some(Token::X));
    assert_eq!(read_token("o\r\n"), Some(Token::O));
    assert_eq!(read_token("\n"), None);
}

#[test]
fn answers_name_positions() {
    let digits = ["1", "2", "3", "4", "5", "6", "7", "8", "9"];
    for (index, digit) in digits.iter().enumerate() {
        assert_eq!(
            position_from_answer(digit),
            Some(cell((index / 3) as u8, (index % 3) as u8))
        );
    }
    assert_eq!(position_from_answer("0"), None);
    assert_eq!(position_from_answer("10"), None);
    assert_eq!(position_from_answer(""), None);
    assert_eq!(position_from_answer("5\n"), None);
    assert_eq!(position_from_answer("five"), None);
}

#[test]
fn lines_of_input_ask_for_moves() {
    let board = Board::new();
    assert_eq!(read_move(&board, "5\n"), Ok(cell(1, 1)));
    assert_eq!(read_move(&board, "  7  \n"), Ok(cell(2, 0)));
    assert_eq!(read_move(&board, "0\n"), Err(Rejection::NotAPosition));
    assert_eq!(read_move(&board, "\n"), Err(Rejection::NotAPosition));
    assert_eq!(move_from_answer(&board, "5\n"), Err(Rejection::NotAPosition));

    let started = layout("----X----");
    assert_eq!(read_move(&started, "5\n"), Err(Rejection::Occupied));
    assert_eq!(move_from_answer(&started, "5"), Err(Rejection::Occupied));
    assert_eq!(move_from_answer(&started, "6"), Ok(cell(1, 2)));
}
