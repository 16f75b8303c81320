use board_moves::board::board_history::BoardHistory;
use board_moves::board::Board;
use board_moves::implementations::board::standard_board::StandardBoard;
use board_moves::implementations::piece::standard_piece::StandardPiece;
use board_moves::movement::can_capture::{CanCapture, CapturePredicate};
use board_moves::movement::can_move::{ConditionalRule, Direction, StandardRule};
use board_moves::movement::{
    CalculationResult, CaptureInterpreter, InterpretationResult, MobilityCalculator, Move,
    PresenceCalculator,
};
use board_moves::piece::piece_id::PieceId;
use board_moves::piece::piece_pos::PiecePos;
use board_moves::piece::sign::Sign;

type Chessboard = StandardBoard<8, 8, 64, StandardPiece>;

fn white(kind: StandardPiece) -> PieceId<StandardPiece> {
    PieceId(kind, Sign::Positive, 0)
}

fn black(kind: StandardPiece) -> PieceId<StandardPiece> {
    PieceId(kind, Sign::Negative, 0)
}

fn nothing() -> PieceId<StandardPiece> {
    PieceId::default()
}

fn board_with(pieces: &[(usize, isize)]) -> Chessboard {
    let mut layout = [0isize; 64];
    for (square, code) in pieces {
        layout[*square] = *code;
    }
    Chessboard::new(layout)
}

fn walk(
    board: &Chessboard,
    from: usize,
    step: Move,
    capture: CanCapture,
) -> Vec<usize> {
    let id = board.get_id(&PiecePos(from, 8)).unwrap();
    step.calculate(&mut MobilityCalculator, &id, &PiecePos(from, 8), &capture, board)
}

fn cover(
    board: &Chessboard,
    from: usize,
    step: Move,
    capture: CanCapture,
) -> Vec<usize> {
    let id = board.get_id(&PiecePos(from, 8)).unwrap();
    step.calculate(&mut PresenceCalculator::new(), &id, &PiecePos(from, 8), &capture, board)
}

#[test]
fn move_new_keeps_vector_and_steps() {
    assert_eq!(Move::new(-1, 2, 5), Move { x: -1, y: 2, max_steps: 5 });
}

#[test]
fn an_empty_square_is_free_under_every_policy() {
    let predicate = CapturePredicate { lowest: 1, highest: 6, matching: true, opposing: true, max: 4 };
    let cases = [
        (CanCapture::Never, 0),
        (CanCapture::Matching(2), 2),
        (CanCapture::Opposing(3), 3),
        (CanCapture::All(1), 1),
        (CanCapture::Specific(predicate), 4),
    ];
    for (policy, limit) in cases {
        let mut captured = 0;
        assert_eq!(
            policy.calculate(&white(StandardPiece::Rook), &nothing(), &mut captured),
            CalculationResult::Free(limit)
        );
        assert_eq!(captured, 0);
    }
}

#[test]
fn never_blocks_every_occupant() {
    let mut captured = 0;
    let rook = white(StandardPiece::Rook);
    assert_eq!(
        CanCapture::Never.calculate(&rook, &black(StandardPiece::Pawn), &mut captured),
        CalculationResult::Blocked(0)
    );
    assert_eq!(
        CanCapture::Never.calculate(&rook, &white(StandardPiece::Pawn), &mut captured),
        CalculationResult::Blocked(0)
    );
    assert_eq!(captured, 0);
}

#[test]
fn matching_takes_own_side_up_to_its_limit() {
    let rook = white(StandardPiece::Rook);
    let policy = CanCapture::Matching(1);
    let mut captured = 0;
    assert_eq!(
        policy.calculate(&rook, &black(StandardPiece::Pawn), &mut captured),
        CalculationResult::Blocked(1)
    );
    assert_eq!(captured, 0);
    assert_eq!(
        policy.calculate(&rook, &white(StandardPiece::Pawn), &mut captured),
        CalculationResult::Captured(1)
    );
    assert_eq!(captured, 1);
    assert_eq!(
        policy.calculate(&rook, &white(StandardPiece::Pawn), &mut captured),
        CalculationResult::Blocked(1)
    );
    assert_eq!(captured, 1);
}

#[test]
fn opposing_takes_the_other_side_up_to_its_limit() {
    let rook = white(StandardPiece::Rook);
    let policy = CanCapture::Opposing(2);
    let mut captured = 0;
    assert_eq!(
        policy.calculate(&rook, &white(StandardPiece::Pawn), &mut captured),
        CalculationResult::Blocked(2)
    );
    assert_eq!(
        policy.calculate(&rook, &black(StandardPiece::Pawn), &mut captured),
        CalculationResult::Captured(2)
    );
    assert_eq!(
        policy.calculate(&rook, &black(StandardPiece::Queen), &mut captured),
        CalculationResult::Captured(2)
    );
    assert_eq!(captured, 2);
    assert_eq!(
        policy.calculate(&rook, &black(StandardPiece::Queen), &mut captured),
        CalculationResult::Blocked(2)
    );
    assert_eq!(captured, 2);
    assert_eq!(
        CanCapture::Opposing(0).calculate(&rook, &black(StandardPiece::Pawn), &mut 0),
        CalculationResult::Blocked(0)
    );
}

#[test]
fn all_takes_either_side_up_to_its_limit() {
    let rook = white(StandardPiece::Rook);
    let policy = CanCapture::All(2);
    let mut captured = 0;
    assert_eq!(
        policy.calculate(&rook, &white(StandardPiece::Pawn), &mut captured),
        CalculationResult::Captured(2)
    );
    assert_eq!(
        policy.calculate(&rook, &black(StandardPiece::Pawn), &mut captured),
        CalculationResult::Captured(2)
    );
    assert_eq!(
        policy.calculate(&rook, &black(StandardPiece::Pawn), &mut captured),
        CalculationResult::Blocked(2)
    );
    assert_eq!(captured, 2);
}

#[test]
fn specific_takes_what_its_predicate_accepts() {
    let rook = white(StandardPiece::Rook);
    let pawns_only = CapturePredicate { lowest: 1, highest: 1, matching: false, opposing: true, max: 1 };
    let policy = CanCapture::Specific(pawns_only);
    let mut captured = 0;
    assert_eq!(
        policy.calculate(&rook, &black(StandardPiece::Queen), &mut captured),
        CalculationResult::Blocked(1)
    );
    assert_eq!(
        policy.calculate(&rook, &white(StandardPiece::Pawn), &mut captured),
        CalculationResult::Blocked(1)
    );
    assert_eq!(captured, 0);
    assert_eq!(
        policy.calculate(&rook, &black(StandardPiece::Pawn), &mut captured),
        CalculationResult::Captured(1)
    );
    assert_eq!(captured, 1);
    assert_eq!(
        policy.calculate(&rook, &black(StandardPiece::Pawn), &mut captured),
        CalculationResult::Blocked(1)
    );
    assert!(pawns_only.test(&rook, &black(StandardPiece::Pawn), 0));
    assert!(!pawns_only.test(&rook, &black(StandardPiece::Pawn), 1));
    assert!(!pawns_only.test(&rook, &black(StandardPiece::Knight), 0));
    let own_side = CapturePredicate { lowest: 0, highest: 9, matching: true, opposing: false, max: 3 };
    assert!(own_side.test(&rook, &white(StandardPiece::Pawn), 2));
    assert!(!own_side.test(&rook, &black(StandardPiece::Pawn), 2));
}

#[test]
fn check_accepts_what_is_not_blocked() {
    let rook = white(StandardPiece::Rook);
    let mut captured = 0;
    assert!(CanCapture::Never.check(&rook, &nothing(), &mut captured));
    assert!(!CanCapture::Never.check(&rook, &black(StandardPiece::Pawn), &mut captured));
    assert!(CanCapture::Opposing(1).check(&rook, &black(StandardPiece::Pawn), &mut captured));
    assert_eq!(captured, 1);
    assert!(!CanCapture::Opposing(1).check(&rook, &black(StandardPiece::Pawn), &mut captured));
    assert!(!CanCapture::Opposing(1).check(&rook, &white(StandardPiece::Pawn), &mut 0));
    assert!(CanCapture::Matching(1).check(&rook, &white(StandardPiece::Pawn), &mut 0));
    assert!(CanCapture::All(1).check(&rook, &white(StandardPiece::Pawn), &mut 0));
}

#[test]
fn mobility_reads_capture_as_stop_and_block_as_stop_before() {
    let mut calculator = MobilityCalculator;
    calculator.clear_internal_states();
    assert_eq!(calculator.interpret(CalculationResult::Free(0)), InterpretationResult::Continue);
    assert_eq!(calculator.interpret(CalculationResult::Free(3)), InterpretationResult::Continue);
    assert_eq!(calculator.interpret(CalculationResult::Captured(1)), InterpretationResult::BreakAfter);
    assert_eq!(calculator.interpret(CalculationResult::Blocked(1)), InterpretationResult::BreakBefore);
    assert_eq!(calculator.interpret(CalculationResult::Blocked(0)), InterpretationResult::BreakBefore);
}

#[test]
fn presence_reads_a_block_by_a_capturing_policy_as_covered() {
    let mut calculator = PresenceCalculator::new();
    calculator.clear_internal_states();
    assert_eq!(calculator.interpret(CalculationResult::Free(0)), InterpretationResult::Continue);
    assert_eq!(calculator.interpret(CalculationResult::Captured(1)), InterpretationResult::BreakAfter);
    assert_eq!(calculator.interpret(CalculationResult::Blocked(1)), InterpretationResult::BreakAfter);
    assert_eq!(calculator.interpret(CalculationResult::Blocked(0)), InterpretationResult::BreakBefore);
    assert_eq!(calculator.interpret(CalculationResult::Blocked(1)), InterpretationResult::BreakAfter);
}

#[test]
fn a_slider_runs_to_the_edge_of_an_empty_board() {
    let board = board_with(&[(27, 4)]);
    assert_eq!(
        walk(&board, 27, Move::new(1, 0, usize::MAX), CanCapture::Opposing(1)),
        vec![28, 29, 30, 31]
    );
    assert_eq!(
        walk(&board, 27, Move::new(-1, -1, usize::MAX), CanCapture::Opposing(1)),
        vec![18, 9, 0]
    );
    assert_eq!(
        walk(&board, 27, Move::new(0, 1, usize::MAX), CanCapture::Never),
        vec![35, 43, 51, 59]
    );
}

#[test]
fn a_walk_takes_no_more_than_its_steps() {
    let board = board_with(&[(27, 4)]);
    assert_eq!(walk(&board, 27, Move::new(1, 0, 2), CanCapture::Opposing(1)), vec![28, 29]);
    assert_eq!(walk(&board, 27, Move::new(1, 0, 0), CanCapture::Opposing(1)), Vec::<usize>::new());
    assert_eq!(walk(&board, 27, Move::new(1, 2, 1), CanCapture::Opposing(1)), vec![44]);
    assert_eq!(walk(&board, 27, Move::new(1, 2, 5), CanCapture::Opposing(1)), vec![44, 61]);
}

#[test]
fn a_walk_stops_before_an_own_piece_and_on_an_opposing_one() {
    let board = board_with(&[(27, 4), (30, 1), (3, -1), (24, -2)]);
    assert_eq!(
        walk(&board, 27, Move::new(1, 0, usize::MAX), CanCapture::Opposing(1)),
        vec![28, 29]
    );
    assert_eq!(
        walk(&board, 27, Move::new(0, -1, usize::MAX), CanCapture::Opposing(1)),
        vec![19, 11, 3]
    );
    assert_eq!(
        walk(&board, 27, Move::new(-1, 0, usize::MAX), CanCapture::Opposing(1)),
        vec![26, 25, 24]
    );
}

#[test]
fn a_capture_ends_the_walk_even_with_captures_left() {
    let board = board_with(&[(24, 4), (26, -1), (28, -1)]);
    assert_eq!(
        walk(&board, 24, Move::new(1, 0, usize::MAX), CanCapture::Opposing(2)),
        vec![25, 26]
    );
    assert_eq!(
        walk(&board, 24, Move::new(1, 0, usize::MAX), CanCapture::All(5)),
        vec![25, 26]
    );
}

#[test]
fn never_gives_empty_squares_only() {
    let board = board_with(&[(24, 4), (27, -1), (40, 1)]);
    assert_eq!(walk(&board, 24, Move::new(1, 0, usize::MAX), CanCapture::Never), vec![25, 26]);
    assert_eq!(walk(&board, 24, Move::new(0, 1, usize::MAX), CanCapture::Never), vec![32]);
    assert_eq!(cover(&board, 24, Move::new(1, 0, usize::MAX), CanCapture::Never), vec![25, 26]);
    assert_eq!(cover(&board, 24, Move::new(0, 1, usize::MAX), CanCapture::Never), vec![32]);
}

#[test]
fn matching_lands_on_own_pieces_only() {
    let board = board_with(&[(24, 4), (27, 1), (40, -1)]);
    assert_eq!(
        walk(&board, 24, Move::new(1, 0, usize::MAX), CanCapture::Matching(1)),
        vec![25, 26, 27]
    );
    assert_eq!(walk(&board, 24, Move::new(0, 1, usize::MAX), CanCapture::Matching(1)), vec![32]);
}

#[test]
fn the_vector_is_mirrored_for_the_negative_side() {
    let board = board_with(&[(27, -4), (11, 1)]);
    assert_eq!(
        walk(&board, 27, Move::new(0, 1, usize::MAX), CanCapture::Opposing(1)),
        vec![19, 11]
    );
    assert_eq!(walk(&board, 27, Move::new(1, 0, 2), CanCapture::Opposing(1)), vec![26, 25]);
    assert_eq!(walk(&board, 27, Move::new(1, 2, 1), CanCapture::Opposing(1)), vec![10]);
}

#[test]
fn a_mover_without_a_side_stays_where_it_is() {
    let board = board_with(&[(27, 4)]);
    let sideless = PieceId(StandardPiece::Rook, Sign::Neutral, 0);
    let squares = Move::new(1, 0, 3).calculate(
        &mut MobilityCalculator,
        &sideless,
        &PiecePos(27, 8),
        &CanCapture::All(1),
        &board,
    );
    assert_eq!(squares, vec![27]);
}

#[test]
fn a_walk_from_off_the_board_is_empty() {
    let board = board_with(&[(27, 4)]);
    let rook = white(StandardPiece::Rook);
    let squares = Move::new(0, 1, usize::MAX).calculate(
        &mut MobilityCalculator,
        &rook,
        &PiecePos(64, 8),
        &CanCapture::Opposing(1),
        &board,
    );
    assert_eq!(squares, Vec::<usize>::new());
    let back = Move::new(0, -1, usize::MAX).calculate(
        &mut MobilityCalculator,
        &rook,
        &PiecePos(67, 8),
        &CanCapture::Opposing(1),
        &board,
    );
    assert_eq!(back, vec![59, 51, 43, 35]);
}

#[test]
fn coverage_includes_the_piece_that_blocks() {
    let board = board_with(&[(24, 4), (27, 1), (40, -1)]);
    assert_eq!(
        cover(&board, 24, Move::new(1, 0, usize::MAX), CanCapture::Opposing(1)),
        vec![25, 26, 27]
    );
    assert_eq!(
        cover(&board, 24, Move::new(0, 1, usize::MAX), CanCapture::Opposing(1)),
        vec![32, 40]
    );
    assert_eq!(
        walk(&board, 24, Move::new(1, 0, usize::MAX), CanCapture::Opposing(1)),
        vec![25, 26]
    );
}

#[test]
fn a_first_leap_needs_an_unmoved_piece_and_an_empty_square_ahead() {
    let rule = StandardRule::FirstLeap { x: 0, y: 1 };
    let pawn = white(StandardPiece::Pawn);
    let mut history = BoardHistory::new(None);
    let board = board_with(&[(11, 1)]);
    assert_eq!(
        rule.try_resolve(&pawn, &board, &history),
        Some((Move::new(0, 2, 1), CanCapture::Never))
    );
    let blocked = board_with(&[(11, 1), (19, -1)]);
    assert_eq!(rule.try_resolve(&pawn, &blocked, &history), None);
    let at_the_edge = board_with(&[(59, 1)]);
    assert_eq!(rule.try_resolve(&pawn, &at_the_edge, &history), None);
    history.push(&pawn, &PiecePos(11, 8));
    assert_eq!(rule.try_resolve(&pawn, &board, &history), None);
}

#[test]
fn a_first_leap_declines_a_vector_that_cannot_be_doubled() {
    let rule = StandardRule::FirstLeap { x: isize::MAX, y: 0 };
    let pawn = PieceId(StandardPiece::Pawn, Sign::Neutral, 0);
    let history = BoardHistory::new(None);
    let mut board = board_with(&[]);
    board.set_square(&PieceId(StandardPiece::Unknown(9), Sign::Positive, 0), 11);
    let stranger = PieceId(StandardPiece::Unknown(9), Sign::Positive, 0);
    assert_eq!(rule.try_resolve(&stranger, &board, &history), None);
    assert_eq!(rule.try_resolve(&pawn, &board, &history), None);
}

#[test]
fn an_attack_needs_an_opposing_piece_on_its_square() {
    let left = StandardRule::Attack { x: -1, y: 1 };
    let right = StandardRule::Attack { x: 1, y: 1 };
    let pawn = white(StandardPiece::Pawn);
    let history = BoardHistory::new(None);
    let board = board_with(&[(28, 1), (35, -1), (37, 2)]);
    assert_eq!(
        left.try_resolve(&pawn, &board, &history),
        Some((Move::new(-1, 1, 1), CanCapture::Opposing(1)))
    );
    assert_eq!(right.try_resolve(&pawn, &board, &history), None);
    let at_the_edge = board_with(&[(24, 1), (31, -1)]);
    assert_eq!(left.try_resolve(&pawn, &at_the_edge, &history), None);
    let black_pawn = black(StandardPiece::Pawn);
    assert_eq!(
        right.try_resolve(&black_pawn, &board, &history),
        None
    );
    let upside_down = board_with(&[(35, -1), (28, 1)]);
    assert_eq!(
        left.try_resolve(&black_pawn, &upside_down, &history),
        Some((Move::new(-1, 1, 1), CanCapture::Opposing(1)))
    );
}

#[test]
fn a_rule_gives_nothing_to_a_piece_without_a_position() {
    let board = board_with(&[(28, 1)]);
    let history = BoardHistory::new(None);
    let absent = black(StandardPiece::King);
    for rule in [
        StandardRule::FirstLeap { x: 0, y: 1 },
        StandardRule::Attack { x: 1, y: 1 },
        StandardRule::Passing { x: 1, kind: 1, home: 1 },
        StandardRule::CastleJump { direction: Direction::Left, partner: 4, distance: -2 },
        StandardRule::CastleBeside { direction: Direction::Right, partner: 6 },
    ] {
        assert_eq!(rule.try_resolve(&absent, &board, &history), None);
    }
}
