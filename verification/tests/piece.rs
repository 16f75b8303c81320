use board_moves::implementations::board::standard_board::StandardBoard;
use board_moves::implementations::piece::standard_piece::StandardPiece;
use board_moves::piece::piece_id::PieceId;
use board_moves::piece::piece_pos::PiecePos;
use board_moves::piece::sign::Sign;
use board_moves::piece::Piece;

type Chessboard = StandardBoard<8, 8, 64, StandardPiece>;

#[test]
fn sign_of_a_code_follows_its_sign() {
    assert_eq!(Sign::from_code(5), Sign::Positive);
    assert_eq!(Sign::from_code(-3), Sign::Negative);
    assert_eq!(Sign::from_code(0), Sign::Neutral);
}

#[test]
fn negating_a_sign_swaps_the_sides() {
    assert_eq!(Sign::Positive.negate(), Sign::Negative);
    assert_eq!(Sign::Negative.negate(), Sign::Positive);
    assert_eq!(Sign::Neutral.negate(), Sign::Neutral);
}

#[test]
fn sign_arithmetic_gives_exact_values() {
    assert_eq!(Sign::Positive.times(7), 7);
    assert_eq!(Sign::Negative.times(7), -7);
    assert_eq!(Sign::Neutral.times(7), 0);
    assert_eq!(Sign::Positive.plus(7), 8);
    assert_eq!(Sign::Negative.plus(7), 6);
    assert_eq!(Sign::Neutral.plus(7), 7);
    assert_eq!(Sign::Positive.minus(7), 6);
    assert_eq!(Sign::Negative.minus(7), 8);
    assert_eq!(Sign::Neutral.minus(7), 7);
}

#[test]
fn standard_kinds_round_trip_through_their_values() {
    let kinds = [
        StandardPiece::Empty,
        StandardPiece::Pawn,
        StandardPiece::Knight,
        StandardPiece::Bishop,
        StandardPiece::Rook,
        StandardPiece::Queen,
        StandardPiece::King,
    ];
    for (value, kind) in kinds.iter().enumerate() {
        assert_eq!(kind.to_value(), value as isize);
        assert_eq!(StandardPiece::from_value(value as isize), *kind);
    }
    assert_eq!(StandardPiece::from_value(9), StandardPiece::Unknown(9));
    assert_eq!(StandardPiece::Unknown(9).to_value(), 9);
    assert_eq!(StandardPiece::none(), StandardPiece::Empty);
}

#[test]
fn a_kind_number_beyond_the_codes_is_held_at_the_largest_code() {
    assert_eq!(StandardPiece::Unknown(usize::MAX).to_value(), isize::MAX);
    assert_eq!(StandardPiece::Unknown(isize::MAX as usize).to_value(), isize::MAX);
    assert_eq!(StandardPiece::Unknown(7).to_value(), 7);
}

#[test]
fn a_kind_number_of_a_named_kind_is_held_at_the_largest_code() {
    for number in 0..7 {
        assert_eq!(StandardPiece::Unknown(number).to_value(), isize::MAX);
    }
}

#[test]
fn only_the_empty_kind_is_none() {
    assert!(PieceId(StandardPiece::Empty, Sign::Positive, 0).is_none());
    assert!(!PieceId(StandardPiece::Unknown(0), Sign::Neutral, 0).is_none());
    assert!(!PieceId(StandardPiece::Pawn, Sign::Neutral, 0).is_none());
    assert_eq!(PieceId(StandardPiece::Unknown(0), Sign::Negative, 0).i(), -isize::MAX);
}

#[test]
fn signed_code_is_kind_value_times_side() {
    assert_eq!(PieceId(StandardPiece::Rook, Sign::Positive, 1).i(), 4);
    assert_eq!(PieceId(StandardPiece::Rook, Sign::Negative, 1).i(), -4);
    assert_eq!(PieceId(StandardPiece::Rook, Sign::Neutral, 1).i(), 0);
    assert_eq!(PieceId(StandardPiece::Empty, Sign::Neutral, 0).i(), 0);
}

#[test]
fn piece_id_getters_return_the_fields() {
    let id = PieceId(StandardPiece::Queen, Sign::Negative, 2);
    assert_eq!(id.piece(), StandardPiece::Queen);
    assert_eq!(id.sign(), Sign::Negative);
    assert_eq!(id.version(), 2);
    assert_eq!(id.as_key(), (-5, 2));
    assert!(!id.is_none());
    assert!(PieceId(StandardPiece::Empty, Sign::Neutral, 0).is_none());
}

#[test]
fn default_piece_id_is_the_empty_identity() {
    let id: PieceId<StandardPiece> = PieceId::default();
    assert!(id.is_none());
    assert_eq!(id.sign(), Sign::Neutral);
    assert_eq!(id.version(), 0);
    assert_eq!(id.i(), 0);
}

#[test]
fn piece_id_from_code_carries_kind_side_and_version() {
    let id: PieceId<StandardPiece> = PieceId::from_code(-2, 1);
    assert_eq!(id.piece(), StandardPiece::Knight);
    assert_eq!(id.sign(), Sign::Negative);
    assert_eq!(id.version(), 1);
    assert_eq!(id.i(), -2);
    let empty: PieceId<StandardPiece> = PieceId::from_code(0, 0);
    assert!(empty.is_none());
    assert_eq!(empty.sign(), Sign::Neutral);
}

#[test]
fn matches_is_same_side_and_opposes_is_opposite_side() {
    let white_rook = PieceId(StandardPiece::Rook, Sign::Positive, 0);
    let white_pawn = PieceId(StandardPiece::Pawn, Sign::Positive, 3);
    let black_rook = PieceId(StandardPiece::Rook, Sign::Negative, 0);
    let nothing: PieceId<StandardPiece> = PieceId::default();
    assert!(white_rook.matches(&white_pawn));
    assert!(!white_rook.matches(&black_rook));
    assert!(white_rook.opposes(&black_rook));
    assert!(black_rook.opposes(&white_rook));
    assert!(!white_rook.opposes(&white_pawn));
    assert!(!white_rook.opposes(&nothing));
    assert!(!nothing.opposes(&white_rook));
    assert!(!nothing.opposes(&nothing));
    let sideless = PieceId(StandardPiece::Rook, Sign::Neutral, 0);
    assert!(!sideless.opposes(&sideless));
    assert!(!sideless.opposes(&black_rook));
}

#[test]
fn position_reports_its_square() {
    assert_eq!(PiecePos(27, 8).u(), 27);
}

#[test]
fn position_neighbours_follow_the_side() {
    let pos = PiecePos(27, 8);
    assert_eq!(pos.top(Sign::Positive), PiecePos(35, 8));
    assert_eq!(pos.top(Sign::Negative), PiecePos(19, 8));
    assert_eq!(pos.top(Sign::Neutral), PiecePos(27, 8));
    assert_eq!(pos.bottom(Sign::Positive), PiecePos(19, 8));
    assert_eq!(pos.bottom(Sign::Negative), PiecePos(35, 8));
    assert_eq!(pos.left(Sign::Positive), PiecePos(26, 8));
    assert_eq!(pos.left(Sign::Negative), PiecePos(28, 8));
    assert_eq!(pos.right(Sign::Positive), PiecePos(28, 8));
    assert_eq!(pos.right(Sign::Negative), PiecePos(26, 8));
    assert_eq!(pos.topleft(Sign::Positive), PiecePos(34, 8));
    assert_eq!(pos.topright(Sign::Positive), PiecePos(36, 8));
    assert_eq!(pos.bottomleft(Sign::Positive), PiecePos(18, 8));
    assert_eq!(pos.bottomright(Sign::Positive), PiecePos(20, 8));
    assert_eq!(pos.topleft(Sign::Negative), PiecePos(18, 8));
    assert_eq!(pos.bottomright(Sign::Negative), PiecePos(36, 8));
}

#[test]
fn position_offset_moves_along_the_index_order() {
    let pos = PiecePos(11, 8);
    assert_eq!(pos.offset(Sign::Positive, 16), PiecePos(27, 8));
    assert_eq!(pos.offset(Sign::Negative, 3), PiecePos(8, 8));
    assert_eq!(pos.offset(Sign::Neutral, 16), PiecePos(11, 8));
}

#[test]
fn a_step_off_the_index_range_wraps_around() {
    assert_eq!(PiecePos(0, 8).left(Sign::Positive), PiecePos(usize::MAX, 8));
    assert_eq!(PiecePos(usize::MAX, 8).right(Sign::Positive), PiecePos(0, 8));
    assert_eq!(PiecePos(3, 8).bottom(Sign::Positive), PiecePos(usize::MAX - 4, 8));
}

#[test]
fn coordinates_are_column_and_row() {
    assert_eq!(PiecePos(27, 8).xy(), (3, 3));
    assert_eq!(PiecePos(7, 8).xy(), (7, 0));
    assert_eq!(PiecePos(8, 8).xy(), (0, 1));
}

#[test]
fn in_bounds_holds_inside_the_grid_only() {
    let board = Chessboard::new([0; 64]);
    assert!(PiecePos::is_inbounds(0, 0, &board));
    assert!(PiecePos::is_inbounds(7, 7, &board));
    assert!(!PiecePos::is_inbounds(8, 0, &board));
    assert!(!PiecePos::is_inbounds(0, 8, &board));
    assert!(!PiecePos::is_inbounds(-1, 0, &board));
    assert!(!PiecePos::is_inbounds(0, -1, &board));
}

#[test]
fn square_from_coordinates_is_row_major() {
    let board = Chessboard::new([0; 64]);
    assert_eq!(PiecePos::from_xy(3, 3, &board), PiecePos(27, 8));
    assert_eq!(PiecePos::from_xy(0, 0, &board), PiecePos(0, 8));
    assert_eq!(PiecePos::from_xy(7, 7, &board), PiecePos(63, 8));
    let wide = StandardBoard::<4, 2, 8, StandardPiece>::new([0; 8]);
    assert_eq!(PiecePos::from_xy(1, 1, &wide), PiecePos(5, 4));
}

#[test]
fn sides_and_kinds_are_ordered() {
    assert!(Sign::Negative < Sign::Neutral);
    assert!(Sign::Neutral < Sign::Positive);
    assert!(StandardPiece::Empty < StandardPiece::Pawn);
    assert!(StandardPiece::Pawn < StandardPiece::King);
    assert!(StandardPiece::King < StandardPiece::Unknown(0));
}
