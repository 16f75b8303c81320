use board_moves::board::Board;
use board_moves::game::Game;
use board_moves::implementations::board::standard_board::StandardBoard;
use board_moves::implementations::piece::standard_piece::StandardPiece;
use board_moves::implementations::piece::standard_piece_set::StandardPieceSet;
use board_moves::movement::{MobilityCalculator, PresenceCalculator};
use board_moves::piece::piece_id::PieceId;
use board_moves::piece::piece_pos::PiecePos;
use board_moves::piece::piece_set::PieceSet;
use board_moves::piece::sign::Sign;

type ChessGame = Game<StandardBoard<8, 8, 64, StandardPiece>, StandardPieceSet>;

fn standard_layout() -> [isize; 64] {
    [
        4, 2, 3, 5, 6, 3, 2, 4, //
        1, 1, 1, 1, 1, 1, 1, 1, //
        0, 0, 0, 0, 0, 0, 0, 0, //
        0, 0, 0, 0, 0, 0, 0, 0, //
        0, 0, 0, 0, 0, 0, 0, 0, //
        0, 0, 0, 0, 0, 0, 0, 0, //
        -1, -1, -1, -1, -1, -1, -1, -1, //
        -4, -2, -3, -5, -6, -3, -2, -4, //
    ]
}

fn reachable(game: &ChessGame, id: &PieceId<StandardPiece>) -> Vec<usize> {
    let slice = game.piece_set.valid_slice(&mut MobilityCalculator, id, &game.board, &game.history);
    slice.inner().clone()
}

fn trail(game: &ChessGame, id: &PieceId<StandardPiece>) -> Option<Vec<usize>> {
    game.history.get_slice(id).map(|slice| slice.inner().clone())
}

#[test]
fn pawn_double_step_is_offered_once() {
    let mut game = ChessGame::new(standard_layout(), StandardPieceSet);
    let pawn = PieceId(StandardPiece::Pawn, Sign::Positive, 3);
    assert_eq!(game.board.get_pos(&pawn), Some(PiecePos(11, 8)));
    assert_eq!(reachable(&game, &pawn), vec![19, 27]);
    game.move_piece_relative(&pawn, 16);
    assert_eq!(game.board.get_pos(&pawn), Some(PiecePos(27, 8)));
    assert_eq!(reachable(&game, &pawn), vec![35]);
    assert_eq!(game.history.get_slice(&pawn).unwrap().inner(), &vec![27]);
}

#[test]
fn a_new_game_has_no_history_and_empty_presence_boards() {
    let game = ChessGame::new(standard_layout(), StandardPieceSet);
    assert_eq!(game.visualize_board()[0], [4, 2, 3, 5, 6, 3, 2, 4]);
    assert_eq!(game.visualize_board()[7], [-4, -2, -3, -5, -6, -3, -2, -4]);
    assert_eq!(game.visualize_board().len(), 8);
    assert_eq!(trail(&game, &PieceId(StandardPiece::Pawn, Sign::Positive, 0)), None);
    let (positive, negative, overall) = game.visualize_presence();
    for row in 0..8 {
        assert_eq!(positive[row], [0; 8]);
        assert_eq!(negative[row], [0; 8]);
        assert_eq!(overall[row], [0; 8]);
    }
}

#[test]
fn moving_a_piece_updates_position_history_and_both_squares() {
    let mut game = ChessGame::new(standard_layout(), StandardPieceSet);
    let knight = PieceId(StandardPiece::Knight, Sign::Positive, 0);
    game.move_piece(&knight, 18);
    assert_eq!(game.board.get_pos(&knight), Some(PiecePos(18, 8)));
    assert_eq!(trail(&game, &knight), Some(vec![18]));
    assert!(game.board.get_id(&PiecePos(1, 8)).unwrap().is_none());
    assert_eq!(game.board.get_id(&PiecePos(18, 8)).unwrap().as_key(), (2, 0));
    game.move_piece(&knight, 35);
    assert_eq!(game.board.get_pos(&knight), Some(PiecePos(35, 8)));
    assert_eq!(trail(&game, &knight), Some(vec![18, 35]));
    assert!(game.board.get_id(&PiecePos(18, 8)).unwrap().is_none());
}

#[test]
fn the_moved_piece_is_read_back_from_its_destination() {
    let mut game = ChessGame::new(standard_layout(), StandardPieceSet);
    let bishop = PieceId(StandardPiece::Bishop, Sign::Negative, 1);
    game.move_piece(&bishop, 33);
    let read = game.board.get_id(&PiecePos(33, 8)).unwrap();
    assert_eq!(
        (read.piece(), read.sign(), read.version()),
        (StandardPiece::Bishop, Sign::Negative, 1)
    );
    assert_eq!(game.board.get_pos(&read), Some(PiecePos(33, 8)));
}

#[test]
fn moving_a_piece_onto_its_own_square_keeps_it_there() {
    let mut game = ChessGame::new(standard_layout(), StandardPieceSet);
    let king = PieceId(StandardPiece::King, Sign::Positive, 0);
    game.move_piece(&king, 4);
    assert_eq!(game.board.get_pos(&king), Some(PiecePos(4, 8)));
    assert_eq!(trail(&game, &king), Some(vec![4]));
}

#[test]
fn moving_onto_an_occupied_square_replaces_the_occupant() {
    let mut game = ChessGame::new(standard_layout(), StandardPieceSet);
    let queen = PieceId(StandardPiece::Queen, Sign::Positive, 0);
    let black_pawn = PieceId(StandardPiece::Pawn, Sign::Negative, 3);
    game.move_piece(&queen, 51);
    assert_eq!(game.board.get_pos(&queen), Some(PiecePos(51, 8)));
    assert_eq!(game.board.get_pos(&black_pawn), None);
    assert_eq!(trail(&game, &black_pawn), None);
    for square in 0..64 {
        if let Some(id) = game.board.get_id_not_none(&PiecePos(square, 8)) {
            assert_eq!(game.board.get_pos(&id), Some(PiecePos(square, 8)));
        }
    }
}

#[test]
fn moving_a_piece_without_a_position_changes_nothing() {
    let mut game = ChessGame::new(standard_layout(), StandardPieceSet);
    let absent = PieceId(StandardPiece::Queen, Sign::Positive, 1);
    game.move_piece(&absent, 30);
    game.move_piece_relative(&absent, 8);
    game.move_piece(&PieceId::default(), 30);
    assert_eq!(trail(&game, &absent), None);
    assert_eq!(game.visualize_board()[3], [0; 8]);
    assert_eq!(game.visualize_board()[0], [4, 2, 3, 5, 6, 3, 2, 4]);
}

#[test]
fn a_relative_move_goes_up_for_positive_and_down_for_negative() {
    let mut game = ChessGame::new(standard_layout(), StandardPieceSet);
    let white = PieceId(StandardPiece::Pawn, Sign::Positive, 0);
    let black = PieceId(StandardPiece::Pawn, Sign::Negative, 7);
    game.move_piece_relative(&white, 8);
    game.move_piece_relative(&black, 16);
    assert_eq!(game.board.get_pos(&white), Some(PiecePos(16, 8)));
    assert_eq!(game.board.get_pos(&black), Some(PiecePos(39, 8)));
    assert_eq!(trail(&game, &white), Some(vec![16]));
    assert_eq!(trail(&game, &black), Some(vec![39]));
}

#[test]
fn clear_state_resets_board_and_history_together() {
    let mut game = ChessGame::new(standard_layout(), StandardPieceSet);
    let pawn = PieceId(StandardPiece::Pawn, Sign::Positive, 3);
    game.move_piece(&pawn, 27);
    game.calculate_presence();
    game.clear_state();
    assert_eq!(game.board.get_pos(&pawn), None);
    assert_eq!(trail(&game, &pawn), None);
    assert!(game.board.get_slice().inner().is_empty());
    assert_ne!(game.visualize_presence().0[2], [0; 8]);
}

#[test]
fn clear_is_clear_state() {
    let mut game = ChessGame::new(standard_layout(), StandardPieceSet);
    let pawn = PieceId(StandardPiece::Pawn, Sign::Positive, 3);
    game.move_piece(&pawn, 27);
    game.clear();
    assert_eq!(trail(&game, &pawn), None);
    assert!(game.board.get_slice().inner().is_empty());
}

#[test]
fn clear_presence_keeps_the_board() {
    let mut game = ChessGame::new(standard_layout(), StandardPieceSet);
    game.calculate_presence();
    game.clear_presence();
    let (positive, negative, overall) = game.visualize_presence();
    for row in 0..8 {
        assert_eq!(positive[row], [0; 8]);
        assert_eq!(negative[row], [0; 8]);
        assert_eq!(overall[row], [0; 8]);
    }
    assert_eq!(game.visualize_board()[1], [1; 8]);
}

#[test]
fn clear_all_resets_everything() {
    let mut game = ChessGame::new(standard_layout(), StandardPieceSet);
    let pawn = PieceId(StandardPiece::Pawn, Sign::Positive, 3);
    game.move_piece(&pawn, 27);
    game.calculate_presence();
    game.clear_all();
    assert_eq!(trail(&game, &pawn), None);
    assert!(game.board.get_slice().inner().is_empty());
    assert_eq!(game.visualize_presence().2[2], [0; 8]);
}

#[test]
fn presence_on_the_initial_layout() {
    let mut game = ChessGame::new(standard_layout(), StandardPieceSet);
    game.calculate_presence();
    let (positive, negative, overall) = game.visualize_presence();
    let white_rows: [[isize; 8]; 4] = [
        [0, 1, 1, 1, 1, 1, 1, 0],
        [1, 1, 1, 4, 4, 1, 1, 1],
        [2, 1, 2, 1, 1, 2, 1, 2],
        [1, 1, 1, 1, 1, 1, 1, 1],
    ];
    for row in 0..4 {
        assert_eq!(positive[row], white_rows[row]);
        assert_eq!(positive[7 - row], [0; 8]);
        assert_eq!(negative[row], [0; 8]);
        assert_eq!(negative[7 - row], white_rows[row].map(|count| -count));
        assert_eq!(overall[row], white_rows[row]);
        assert_eq!(overall[7 - row], white_rows[row].map(|count| -count));
    }
}

#[test]
fn every_pawn_contests_the_square_in_front_of_it_exactly_once() {
    let game = ChessGame::new(standard_layout(), StandardPieceSet);
    for version in 0..8 {
        for (sign, start, front) in [
            (Sign::Positive, 8 + version, 16 + version),
            (Sign::Negative, 48 + version, 40 + version),
        ] {
            let pawn = PieceId(StandardPiece::Pawn, sign, version);
            assert_eq!(game.board.get_pos(&pawn), Some(PiecePos(start, 8)));
            let covered = game
                .piece_set
                .valid_slice(&mut PresenceCalculator::new(), &pawn, &game.board, &game.history)
                .inner()
                .clone();
            assert_eq!(covered.iter().filter(|square| **square == front).count(), 1);
        }
    }
}

#[test]
fn squares_held_by_own_pieces_count_as_contested() {
    let mut game = ChessGame::new(standard_layout(), StandardPieceSet);
    game.calculate_presence();
    let (positive, negative, _) = game.visualize_presence();
    assert_eq!(positive[1][0], 1);
    assert_eq!(positive[0][1], 1);
    assert_eq!(positive[1][3], 4);
    assert_eq!(negative[6][4], -4);
    let queen = PieceId(StandardPiece::Queen, Sign::Positive, 0);
    assert_eq!(reachable(&game, &queen), Vec::<usize>::new());
}

#[test]
fn presence_adds_to_what_the_boards_hold() {
    let mut game = ChessGame::new(standard_layout(), StandardPieceSet);
    game.calculate_presence();
    game.calculate_presence();
    let (positive, negative, overall) = game.visualize_presence();
    assert_eq!(positive[2], [4, 2, 4, 2, 2, 4, 2, 4]);
    assert_eq!(negative[5], [-4, -2, -4, -2, -2, -4, -2, -4]);
    assert_eq!(overall[1], [2, 2, 2, 8, 8, 2, 2, 2]);
}

#[test]
fn presence_of_both_sides_meets_on_the_overall_board() {
    let mut layout = [0isize; 64];
    layout[0] = 4;
    layout[56] = -4;
    layout[7] = -3;
    let mut game = ChessGame::new(layout, StandardPieceSet);
    game.calculate_presence();
    let (positive, negative, overall) = game.visualize_presence();
    assert_eq!(positive[0], [0, 1, 1, 1, 1, 1, 1, 1]);
    assert_eq!(negative[0], [-1, 0, 0, 0, 0, 0, 0, 0]);
    assert_eq!(overall[0], [-1, 1, 1, 1, 1, 1, 1, 1]);
    assert_eq!(positive[3][0], 1);
    assert_eq!(negative[3][0], -1);
    assert_eq!(overall[3][0], 0);
    assert_eq!(negative[7], [-1, -1, -1, -1, -1, -1, -1, -1]);
    assert_eq!(positive[7][0], 1);
    assert_eq!(overall[7][0], 0);
    assert_eq!(negative[1][6], -1);
    assert_eq!(overall[6][1], -1);
}

#[test]
fn moves_are_shown_as_the_code_of_the_mover() {
    let game = ChessGame::new(standard_layout(), StandardPieceSet);
    let knight = PieceId(StandardPiece::Knight, Sign::Positive, 1);
    let rows = game.visualize_moves(&knight);
    assert_eq!(rows.len(), 8);
    assert_eq!(rows[2], [0, 0, 0, 0, 0, 2, 0, 2]);
    for row in [0, 1, 3, 4, 5, 6, 7] {
        assert_eq!(rows[row], [0; 8]);
    }
    let black_pawn = PieceId(StandardPiece::Pawn, Sign::Negative, 0);
    let rows = game.visualize_moves(&black_pawn);
    assert_eq!(rows[5], [-1, 0, 0, 0, 0, 0, 0, 0]);
    assert_eq!(rows[4], [-1, 0, 0, 0, 0, 0, 0, 0]);
    let absent = PieceId(StandardPiece::Queen, Sign::Positive, 4);
    assert_eq!(game.visualize_moves(&absent), vec![[0; 8]; 8]);
}

#[test]
fn a_square_reached_by_two_rules_shows_the_code_twice() {
    let mut layout = [0isize; 64];
    layout[0] = 4;
    layout[4] = 6;
    let game = ChessGame::new(layout, StandardPieceSet);
    let rook = PieceId(StandardPiece::Rook, Sign::Positive, 0);
    assert_eq!(game.visualize_moves(&rook)[0], [0, 4, 4, 8, 0, 0, 0, 0]);
}
