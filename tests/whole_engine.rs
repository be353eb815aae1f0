use mess::board::Board;
use mess::evaluation::{static_evaluation, DynamicEvaluator, MinimaxEvaluator};
use mess::move_generation::generate_moves;
use mess::test_util::TestMove;
use mess::types::{BoardCastleRights, Castle, Color, ColorCastleRights, PieceKind, Square};
use mess::Line;

#[test]
fn main_pawn_moves() {
    let mut board = Board::create_empty();
    board.add_pieces(&vec!(
        PieceKind::Pawn.colored(Color::Black).at(0, 6),
        PieceKind::Pawn.colored(Color::White).at(2, 1),
        PieceKind::Pawn.colored(Color::White).at(3, 2)));

    let expected_moves = vec!(
        TestMove::from_to(&board, Square::at(2, 1), Square::at(2, 2)),
        TestMove::from_to_en_passant(&board, Square::at(2, 1), Square::at(2, 3), Square::at(2, 2)),
        TestMove::from_to(&board, Square::at(3, 2), Square::at(3, 3)),
    );
    assert_eq!(generate_moves(&board), expected_moves);

    board.side = Color::Black;
    let expected_moves = vec!(
        TestMove::from_to(&board, Square::at(0, 6), Square::at(0, 5)),
        TestMove::from_to_en_passant(&board, Square::at(0, 6), Square::at(0, 4), Square::at(0, 5)),
    );
    assert_eq!(generate_moves(&board), expected_moves);
}

#[test]
fn main_pawn_moves_blocked() {
    let mut board = Board::create_empty();
    board.add_pieces(&vec!(
        PieceKind::Pawn.colored(Color::Black).at(0, 6),
        PieceKind::Dummy.colored(Color::White).at(0, 4),
        PieceKind::Pawn.colored(Color::Black).at(5, 3),
        PieceKind::Dummy.colored(Color::White).at(5, 2),
        PieceKind::Pawn.colored(Color::White).at(2, 1),
        PieceKind::Dummy.colored(Color::White).at(2, 2),
        PieceKind::Pawn.colored(Color::White).at(3, 1),
        PieceKind::Dummy.colored(Color::White).at(3, 3)));

    let expected_moves = vec!(
        TestMove::from_to(&board, Square::at(3, 1), Square::at(3, 2))
    );
    assert_eq!(generate_moves(&board), expected_moves);

    board.side = Color::Black;
    let expected_moves = vec!(
        TestMove::from_to(&board, Square::at(0, 6), Square::at(0, 5))
    );
    assert_eq!(generate_moves(&board), expected_moves);
}

#[test]
fn main_pawn_moves_capture() {
    let mut board = Board::create_empty();
    board.side = Color::Black;
    board.add_pieces(&vec!(
        PieceKind::Pawn.colored(Color::Black).at(0, 6),
        PieceKind::Pawn.colored(Color::White).at(0, 5),
        PieceKind::Pawn.colored(Color::White).at(1, 5), ));
    let expected_moves = vec!(
        TestMove::from_to_capture(&board, Square::at(0, 6), Square::at(1, 5), PieceKind::Pawn.colored(Color::White).at(1, 5)),
    );
    assert_eq!(generate_moves(&board), expected_moves);
}

#[test]
fn main_pawn_moves_en_passant() {
    let mut board = Board::create_empty();
    board.add_pieces(&vec!(
        PieceKind::Pawn.colored(Color::White).at(1, 4),
        PieceKind::Pawn.colored(Color::Black).at(2, 4),
        PieceKind::Pawn.colored(Color::Black).at(4, 3),
        PieceKind::Pawn.colored(Color::White).at(5, 3),
        PieceKind::Pawn.colored(Color::Black).at(7, 3), ));

    board.en_passant = Some(Square::at(2, 5));
    let mut expected_moves = vec!(
        TestMove::from_to(&board, Square::at(1, 4), Square::at(1, 5)),
        TestMove::from_to_capture(&board, Square::at(1, 4), Square::at(2, 5), PieceKind::Pawn.colored(Color::Black).at(2, 4)),
        TestMove::from_to(&board, Square::at(5, 3), Square::at(5, 4))
    );
    for move_ in expected_moves.iter_mut() {
        move_.en_passant_before = board.en_passant;
    }
    assert_eq!(generate_moves(&board), expected_moves);

    board.side = Color::Black;
    board.en_passant = Some(Square::at(5, 2));
    let mut expected_moves = vec!(
        TestMove::from_to(&board, Square::at(2, 4), Square::at(2, 3)),
        TestMove::from_to(&board, Square::at(4, 3), Square::at(4, 2)),
        TestMove::from_to_capture(&board, Square::at(4, 3), Square::at(5, 2), PieceKind::Pawn.colored(Color::White).at(5, 3)),
        TestMove::from_to(&board, Square::at(7, 3), Square::at(7, 2)),
    );
    for move_ in expected_moves.iter_mut() {
        move_.en_passant_before = board.en_passant;
    }
    assert_eq!(generate_moves(&board), expected_moves);
}

#[test]
fn main_pawn_moves_promotion() {
    // White pawn that can promote
    let mut board = Board::create_empty();
    board.add_pieces(&vec!(
        PieceKind::Pawn.colored(Color::White).at(1, 6),
        PieceKind::Pawn.colored(Color::Black).at(2, 7), ));
    let expected_moves = vec!(
        TestMove::promotion(&board, Square::at(1, 6), Square::at(1, 7), PieceKind::Knight),
        TestMove::promotion(&board, Square::at(1, 6), Square::at(1, 7), PieceKind::Bishop),
        TestMove::promotion(&board, Square::at(1, 6), Square::at(1, 7), PieceKind::Rook),
        TestMove::promotion(&board, Square::at(1, 6), Square::at(1, 7), PieceKind::Queen),
        TestMove::promotion_capture(&board, Square::at(1, 6), Square::at(2, 7), PieceKind::Pawn.colored(Color::Black).at(2, 7), PieceKind::Knight),
        TestMove::promotion_capture(&board, Square::at(1, 6), Square::at(2, 7), PieceKind::Pawn.colored(Color::Black).at(2, 7), PieceKind::Bishop),
        TestMove::promotion_capture(&board, Square::at(1, 6), Square::at(2, 7), PieceKind::Pawn.colored(Color::Black).at(2, 7), PieceKind::Rook),
        TestMove::promotion_capture(&board, Square::at(1, 6), Square::at(2, 7), PieceKind::Pawn.colored(Color::Black).at(2, 7), PieceKind::Queen),
    );
    assert_eq!(generate_moves(&board), expected_moves);

    // Black pawn that can promote
    let mut board = Board::create_empty();
    board.side = Color::Black;
    board.add_pieces(&vec!(
        PieceKind::Pawn.colored(Color::Black).at(1, 1),
        PieceKind::Pawn.colored(Color::White).at(2, 0), ));
    let expected_moves = vec!(
        TestMove::promotion(&board, Square::at(1, 1), Square::at(1, 0), PieceKind::Knight),
        TestMove::promotion(&board, Square::at(1, 1), Square::at(1, 0), PieceKind::Bishop),
        TestMove::promotion(&board, Square::at(1, 1), Square::at(1, 0), PieceKind::Rook),
        TestMove::promotion(&board, Square::at(1, 1), Square::at(1, 0), PieceKind::Queen),
        TestMove::promotion_capture(&board, Square::at(1, 1), Square::at(2, 0), PieceKind::Pawn.colored(Color::White).at(2, 0), PieceKind::Knight),
        TestMove::promotion_capture(&board, Square::at(1, 1), Square::at(2, 0), PieceKind::Pawn.colored(Color::White).at(2, 0), PieceKind::Bishop),
        TestMove::promotion_capture(&board, Square::at(1, 1), Square::at(2, 0), PieceKind::Pawn.colored(Color::White).at(2, 0), PieceKind::Rook),
        TestMove::promotion_capture(&board, Square::at(1, 1), Square::at(2, 0), PieceKind::Pawn.colored(Color::White).at(2, 0), PieceKind::Queen),
    );
    assert_eq!(generate_moves(&board), expected_moves);
}

#[test]
fn main_rook_moves() {
    let mut board = Board::create_empty();
    board.add_pieces(&vec!(
        PieceKind::Rook.colored(Color::White).at(3, 3),
        PieceKind::Dummy.colored(Color::White).at(3, 5),
        PieceKind::Pawn.colored(Color::Black).at(1, 3), ));

    let expected_moves = vec!(
        TestMove::from_to(&board, Square::at(3, 3), Square::at(4, 3)),
        TestMove::from_to(&board, Square::at(3, 3), Square::at(5, 3)),
        TestMove::from_to(&board, Square::at(3, 3), Square::at(6, 3)),
        TestMove::from_to(&board, Square::at(3, 3), Square::at(7, 3)),
        TestMove::from_to(&board, Square::at(3, 3), Square::at(2, 3)),
        TestMove::from_to_capture(&board, Square::at(3, 3), Square::at(1, 3), PieceKind::Pawn.colored(Color::Black).at(1, 3)),
        TestMove::from_to(&board, Square::at(3, 3), Square::at(3, 4)),
        TestMove::from_to(&board, Square::at(3, 3), Square::at(3, 2)),
        TestMove::from_to(&board, Square::at(3, 3), Square::at(3, 1)),
        TestMove::from_to(&board, Square::at(3, 3), Square::at(3, 0))
    );
    assert_eq!(generate_moves(&board), expected_moves);
}

#[test]
fn main_bishop_moves() {
    let mut board = Board::create_empty();
    board.add_pieces(&vec!(
        PieceKind::Bishop.colored(Color::White).at(3, 3),
        PieceKind::Dummy.colored(Color::White).at(1, 1),
        PieceKind::Pawn.colored(Color::Black).at(1, 5), ));

    let expected_moves = vec!(
        TestMove::from_to(&board, Square::at(3, 3), Square::at(4, 4)),
        TestMove::from_to(&board, Square::at(3, 3), Square::at(5, 5)),
        TestMove::from_to(&board, Square::at(3, 3), Square::at(6, 6)),
        TestMove::from_to(&board, Square::at(3, 3), Square::at(7, 7)),
        TestMove::from_to(&board, Square::at(3, 3), Square::at(2, 4)),
        TestMove::from_to_capture(&board, Square::at(3, 3), Square::at(1, 5), PieceKind::Pawn.colored(Color::Black).at(1, 5)),
        TestMove::from_to(&board, Square::at(3, 3), Square::at(2, 2)),
        TestMove::from_to(&board, Square::at(3, 3), Square::at(4, 2)),
        TestMove::from_to(&board, Square::at(3, 3), Square::at(5, 1)),
        TestMove::from_to(&board, Square::at(3, 3), Square::at(6, 0)),
    );
    assert_eq!(generate_moves(&board), expected_moves);
}

#[test]
fn main_queen_moves() {
    let mut board = Board::create_empty();
    board.add_pieces(&vec!(
        PieceKind::Queen.colored(Color::White).at(3, 3),
        PieceKind::Dummy.colored(Color::White).at(1, 1),
        PieceKind::Pawn.colored(Color::Black).at(1, 5),
        PieceKind::Dummy.colored(Color::White).at(3, 5),
        PieceKind::Pawn.colored(Color::Black).at(1, 3), ));

    let expected_moves = vec!(
        TestMove::from_to(&board, Square::at(3, 3), Square::at(4, 3)),
        TestMove::from_to(&board, Square::at(3, 3), Square::at(5, 3)),
        TestMove::from_to(&board, Square::at(3, 3), Square::at(6, 3)),
        TestMove::from_to(&board, Square::at(3, 3), Square::at(7, 3)),
        TestMove::from_to(&board, Square::at(3, 3), Square::at(2, 3)),
        TestMove::from_to_capture(&board, Square::at(3, 3), Square::at(1, 3), PieceKind::Pawn.colored(Color::Black).at(1, 3)),
        TestMove::from_to(&board, Square::at(3, 3), Square::at(3, 4)),
        TestMove::from_to(&board, Square::at(3, 3), Square::at(3, 2)),
        TestMove::from_to(&board, Square::at(3, 3), Square::at(3, 1)),
        TestMove::from_to(&board, Square::at(3, 3), Square::at(3, 0)),
        TestMove::from_to(&board, Square::at(3, 3), Square::at(4, 4)),
        TestMove::from_to(&board, Square::at(3, 3), Square::at(5, 5)),
        TestMove::from_to(&board, Square::at(3, 3), Square::at(6, 6)),
        TestMove::from_to(&board, Square::at(3, 3), Square::at(7, 7)),
        TestMove::from_to(&board, Square::at(3, 3), Square::at(2, 4)),
        TestMove::from_to_capture(&board, Square::at(3, 3), Square::at(1, 5), PieceKind::Pawn.colored(Color::Black).at(1, 5)),
        TestMove::from_to(&board, Square::at(3, 3), Square::at(2, 2)),
        TestMove::from_to(&board, Square::at(3, 3), Square::at(4, 2)),
        TestMove::from_to(&board, Square::at(3, 3), Square::at(5, 1)),
        TestMove::from_to(&board, Square::at(3, 3), Square::at(6, 0)),
    );
    assert_eq!(generate_moves(&board), expected_moves);
}

#[test]
fn main_king_basic_moves() {
    // Freestanding King
    let mut board = Board::create_empty();
    board.add_pieces(&vec!(
        PieceKind::King.colored(Color::White).at(3, 2), ));
    let expected_moves = vec!(
        TestMove::from_to(&board, Square::at(3, 2), Square::at(4, 2)),
        TestMove::from_to(&board, Square::at(3, 2), Square::at(2, 2)),
        TestMove::from_to(&board, Square::at(3, 2), Square::at(3, 3)),
        TestMove::from_to(&board, Square::at(3, 2), Square::at(3, 1)),
        TestMove::from_to(&board, Square::at(3, 2), Square::at(4, 3)),
        TestMove::from_to(&board, Square::at(3, 2), Square::at(2, 3)),
        TestMove::from_to(&board, Square::at(3, 2), Square::at(2, 1)),
        TestMove::from_to(&board, Square::at(3, 2), Square::at(4, 1))
    );
    assert_eq!(generate_moves(&board), expected_moves);

    // Blocked and capturing king at the edge of the board
    let mut board = Board::create_empty();
    board.add_pieces(&vec!(
        PieceKind::King.colored(Color::White).at(3, 0),
        PieceKind::Dummy.colored(Color::White).at(4, 0),
        PieceKind::Pawn.colored(Color::Black).at(2, 1)));
    let expected_moves = vec!(
        TestMove::from_to(&board, Square::at(3, 0), Square::at(2, 0)),
        TestMove::from_to(&board, Square::at(3, 0), Square::at(3, 1)),
        TestMove::from_to(&board, Square::at(3, 0), Square::at(4, 1)),
        TestMove::from_to_capture(&board, Square::at(3, 0), Square::at(2, 1), PieceKind::Pawn.colored(Color::Black).at(2, 1))
    );
    assert_eq!(generate_moves(&board), expected_moves);
}

#[test]
fn main_king_castling_moves() {
    let mut board = Board::create_empty();
    board.add_pieces(&vec!(
        PieceKind::King.colored(Color::White).at(4, 0),
        PieceKind::Rook.colored(Color::White).at(0, 0),
        PieceKind::Rook.colored(Color::White).at(7, 0)));

    // No castle rights, no castle
    board.castle_rights = BoardCastleRights::none();
    assert!(!generate_moves(&board).contains(&TestMove::castle(&board, Color::White, Castle::KingSide)));
    assert!(!generate_moves(&board).contains(&TestMove::castle(&board, Color::White, Castle::QueenSide)));

    // Castle only where rights are granted
    board.castle_rights = BoardCastleRights::none();
    board.castle_rights.white.king_side = true;
    assert!(generate_moves(&board).contains(&TestMove::castle(&board, Color::White, Castle::KingSide)));
    assert!(!generate_moves(&board).contains(&TestMove::castle(&board, Color::White, Castle::QueenSide)));
    board.castle_rights.white.queen_side = true;
    assert!(generate_moves(&board).contains(&TestMove::castle(&board, Color::White, Castle::KingSide)));
    assert!(generate_moves(&board).contains(&TestMove::castle(&board, Color::White, Castle::QueenSide)));

    // If all castle rights for both side are granted, then castle
    board.castle_rights = BoardCastleRights::all();
    assert!(generate_moves(&board).contains(&TestMove::castle(&board, Color::White, Castle::KingSide)));
    assert!(generate_moves(&board).contains(&TestMove::castle(&board, Color::White, Castle::QueenSide)));
}

#[test]
fn main_king_castling_moves_blocked() {
    let mut original_board = Board::create_empty();
    original_board.add_pieces(&vec!(
        PieceKind::King.colored(Color::Black).at(4, 7),
        PieceKind::Rook.colored(Color::Black).at(0, 7),
        PieceKind::Rook.colored(Color::Black).at(7, 7)));
    original_board.side = Color::Black;
    original_board.castle_rights = BoardCastleRights::all();

    // No blockers added yet, we can still castle
    let mut board = original_board.clone();
    assert!(generate_moves(&board).contains(&TestMove::castle(&board, Color::Black, Castle::KingSide)));
    assert!(generate_moves(&board).contains(&TestMove::castle(&board, Color::Black, Castle::QueenSide)));

    // Blocker on the queen side, not on the king side
    let mut board = original_board.clone();
    board.add_piece(&PieceKind::Dummy.colored(Color::Black).at(1, 7));
    assert!(generate_moves(&board).contains(&TestMove::castle(&board, Color::Black, Castle::KingSide)));
    assert!(!generate_moves(&board).contains(&TestMove::castle(&board, Color::Black, Castle::QueenSide)));

    // Blocker on the king side, not on the queen side
    let mut board = original_board.clone();
    board.add_piece(&PieceKind::Dummy.colored(Color::White).at(5, 7));
    assert!(!generate_moves(&board).contains(&TestMove::castle(&board, Color::Black, Castle::KingSide)));
    assert!(generate_moves(&board).contains(&TestMove::castle(&board, Color::Black, Castle::QueenSide)));
}

#[test]
fn main_knight_moves() {
    // Freestanding and capturing knight
    let mut board = Board::create_empty();
    board.add_pieces(&vec!(
        PieceKind::Knight.colored(Color::White).at(3, 4),
        PieceKind::Pawn.colored(Color::Black).at(4, 3),
        PieceKind::Pawn.colored(Color::Black).at(4, 4),
        PieceKind::Pawn.colored(Color::Black).at(5, 3)));
    let expected_moves = vec!(
        TestMove::from_to(&board, Square::at(3, 4), Square::at(1, 3)),
        TestMove::from_to(&board, Square::at(3, 4), Square::at(2, 2)),
        TestMove::from_to(&board, Square::at(3, 4), Square::at(4, 2)),
        TestMove::from_to_capture(&board, Square::at(3, 4), Square::at(5, 3), PieceKind::Pawn.colored(Color::Black).at(5, 3)),
        TestMove::from_to(&board, Square::at(3, 4), Square::at(5, 5)),
        TestMove::from_to(&board, Square::at(3, 4), Square::at(4, 6)),
        TestMove::from_to(&board, Square::at(3, 4), Square::at(2, 6)),
        TestMove::from_to(&board, Square::at(3, 4), Square::at(1, 5))
    );
    assert_eq!(generate_moves(&board), expected_moves);

    // Blocked knight at the edge of the board
    let mut board = Board::create_empty();
    board.add_pieces(&vec!(
        PieceKind::Knight.colored(Color::White).at(0, 7),
        PieceKind::Dummy.colored(Color::White).at(1, 5)));
    let expected_moves = vec!(
        TestMove::from_to(&board, Square::at(0, 7), Square::at(2, 6))
    );
    assert_eq!(generate_moves(&board), expected_moves);
}

#[test]
fn main_board_apply_and_revert_move() {
    let mut board = Board::create_empty();
    board.add_pieces(&vec!(
        PieceKind::Pawn.colored(Color::White).at(0, 1)));
    let move_ = TestMove::from_to(&board, Square::at(0, 1), Square::at(0, 2));
    let original_board = board.clone();

    // Apply the move
    board.apply_move(move_).unwrap();

    let mut expected_board = Board::create_empty();
    expected_board.side = Color::Black;
    expected_board.add_pieces(&vec!(
        PieceKind::Pawn.colored(Color::White).at(0, 2)));
    assert_eq!(board, expected_board);

    // Revert the move
    board.revert_move(move_).unwrap();
    assert_eq!(board, original_board);
}

#[test]
fn main_board_apply_and_revert_move_with_capture() {
    let mut board = Board::create_empty();
    board.add_pieces(&vec!(
        PieceKind::Pawn.colored(Color::White).at(0, 1),
        PieceKind::Pawn.colored(Color::Black).at(1, 2)));
    let original_board = board.clone();

    let move_ = TestMove::from_to_capture(&board, Square::at(0, 1), Square::at(1, 2), PieceKind::Pawn.colored(Color::Black).at(1, 2));


    // Apply the move
    board.apply_move(move_).unwrap();

    let mut expected_board = Board::create_empty();
    expected_board.side = Color::Black;
    expected_board.add_pieces(&vec!(
        PieceKind::Pawn.colored(Color::White).at(1, 2)));

    assert_eq!(board, expected_board);

    // Revert the move
    board.revert_move(move_).unwrap();
    assert_eq!(board, original_board);
}

#[test]
fn main_board_apply_and_revert_move_with_en_passant_square() {
    let mut board = Board::create_empty();
    board.add_pieces(&vec!(
        PieceKind::Pawn.colored(Color::White).at(2, 4)));
    board.en_passant = Some(Square::at(4, 2));

    let original_board = board.clone();

    let move_ = TestMove::from_to(&board, Square::at(2, 4), Square::at(2, 5));

    // Apply the move
    board.apply_move(move_).unwrap();

    let mut expected_board = Board::create_empty();
    expected_board.side = Color::Black;
    expected_board.en_passant = None;
    expected_board.add_pieces(&vec!(
        PieceKind::Pawn.colored(Color::White).at(2, 5)));

    assert_eq!(board, expected_board);

    // Revert the move
    board.revert_move(move_).unwrap();
    assert!(board.semantic_eq(&original_board));
}

#[test]
fn main_board_apply_and_revert_move_with_en_passant_capture() {
    let mut board = Board::create_empty();
    board.add_pieces(&vec!(
        PieceKind::Pawn.colored(Color::Black).at(1, 4),
        PieceKind::Pawn.colored(Color::White).at(2, 4)));
    let original_board = board.clone();

    let move_ = TestMove::from_to_capture(&board, Square::at(2, 4), Square::at(1, 5), PieceKind::Pawn.colored(Color::Black).at(1, 4));

    // Apply the move
    board.apply_move(move_).unwrap();

    let mut expected_board = Board::create_empty();
    expected_board.side = Color::Black;
    expected_board.add_pieces(&vec!(
        PieceKind::Pawn.colored(Color::White).at(1, 5)));

    assert_eq!(board, expected_board);

    // Revert the move
    board.revert_move(move_).unwrap();
    assert!(board.semantic_eq(&original_board));
}

#[test]
fn main_board_apply_and_revert_move_with_promotion() {
    let mut board = Board::create_empty();
    board.add_pieces(&vec!(
        PieceKind::Pawn.colored(Color::White).at(1, 6)));
    let original_board = board.clone();

    let move_ = TestMove::promotion(&board, Square::at(1, 6), Square::at(1, 7), PieceKind::Bishop);

    // Apply the move
    board.apply_move(move_).unwrap();

    let mut expected_board = Board::create_empty();
    expected_board.side = Color::Black;
    expected_board.add_pieces(&vec!(
        PieceKind::Bishop.colored(Color::White).at(1, 7)));

    assert_eq!(board, expected_board);

    // Revert the move
    board.revert_move(move_).unwrap();
    assert_eq!(board, original_board);
}

#[test]
fn main_board_apply_and_revert_move_with_capture_and_promotion() {
    let mut board = Board::create_empty();
    board.add_pieces(&vec!(
        PieceKind::Pawn.colored(Color::White).at(1, 6),
        PieceKind::Pawn.colored(Color::Black).at(2, 7)));
    let original_board = board.clone();

    let move_ = TestMove::promotion_capture(&board, Square::at(1, 6), Square::at(2, 7), PieceKind::Pawn.colored(Color::Black).at(2, 7), PieceKind::Bishop);

    // Apply the move
    board.apply_move(move_).unwrap();

    let mut expected_board = Board::create_empty();
    expected_board.side = Color::Black;
    expected_board.add_pieces(&vec!(
        PieceKind::Bishop.colored(Color::White).at(2, 7)));

    assert_eq!(board, expected_board);

    // Revert the move
    board.revert_move(move_).unwrap();
    assert_eq!(board, original_board);
}

#[test]
fn main_board_apply_and_revert_king_side_castling() {
    let mut board = Board::create_empty();
    board.add_pieces(&vec!(
        PieceKind::King.colored(Color::White).at(4, 0),
        PieceKind::Rook.colored(Color::White).at(0, 0),
        PieceKind::Rook.colored(Color::White).at(7, 0)));
    board.castle_rights = BoardCastleRights::all();
    let original_board = board.clone();

    let move_ = TestMove::castle(&board, Color::White, Castle::KingSide);

    // Apply the move
    board.apply_move(move_).unwrap();

    let mut expected_board = Board::create_empty();
    expected_board.side = Color::Black;
    expected_board.castle_rights.white = ColorCastleRights::none();
    expected_board.castle_rights.black = ColorCastleRights::all();
    expected_board.add_pieces(&vec!(
        PieceKind::King.colored(Color::White).at(6, 0),
        PieceKind::Rook.colored(Color::White).at(0, 0),
        PieceKind::Rook.colored(Color::White).at(5, 0)));
    assert_eq!(board, expected_board);

    // Revert the move
    board.revert_move(move_).unwrap();
    assert_eq!(board, original_board);
}

#[test]
fn main_board_apply_and_revert_queen_side_castling() {
    let mut board = Board::create_empty();
    board.side = Color::Black;
    board.add_pieces(&vec!(
        PieceKind::King.colored(Color::Black).at(4, 7),
        PieceKind::Rook.colored(Color::Black).at(0, 7),
        PieceKind::Rook.colored(Color::Black).at(7, 7)));
    board.castle_rights = BoardCastleRights::all();
    let original_board = board.clone();

    let move_ = TestMove::castle(&board, Color::Black, Castle::QueenSide);

    // Apply the move
    board.apply_move(move_).unwrap();

    let mut expected_board = Board::create_empty();
    expected_board.castle_rights.white = ColorCastleRights::all();
    expected_board.castle_rights.black = ColorCastleRights::none();
    expected_board.add_pieces(&vec!(
        PieceKind::King.colored(Color::Black).at(2, 7),
        PieceKind::Rook.colored(Color::Black).at(3, 7),
        PieceKind::Rook.colored(Color::Black).at(7, 7)));
    assert_eq!(board, expected_board);

    // Revert the move
    board.revert_move(move_).unwrap();
    assert_eq!(board, original_board);
}

#[test]
fn main_board_apply_and_revert_castle_rights_loss_through_normal_move() {
    let mut board = Board::create_empty();
    board.castle_rights = BoardCastleRights::all();
    board.add_pieces(&vec!(
        PieceKind::Rook.colored(Color::White).at(0, 0),
        PieceKind::King.colored(Color::White).at(4, 0),
        PieceKind::Rook.colored(Color::White).at(7, 0)));
    let original_board = board.clone();

    // Moving the king-side Rook looses queen side castle rights
    let move_ = TestMove::from_to(&board, Square::at(0, 0), Square::at(0, 1));

    board.apply_move(move_).unwrap();
    let mut expected_castle_rights = BoardCastleRights::all();
    expected_castle_rights.white.queen_side = false;
    assert_eq!(board.castle_rights, expected_castle_rights);

    board.revert_move(move_).unwrap();
    let mut expected_castle_rights = BoardCastleRights::all();
    assert_eq!(board.castle_rights, expected_castle_rights);

    // Moving the queen-side Rook looses king side castle rights
    let move_ = TestMove::from_to(&board, Square::at(7, 0), Square::at(7, 1));

    board.apply_move(move_).unwrap();
    let mut expected_castle_rights = BoardCastleRights::all();
    expected_castle_rights.white.king_side = false;
    assert_eq!(board.castle_rights, expected_castle_rights);

    board.revert_move(move_).unwrap();
    let mut expected_castle_rights = BoardCastleRights::all();
    assert_eq!(board.castle_rights, expected_castle_rights);

    // Moving the King looses castle rights on both sides
    let move_ = TestMove::from_to(&board, Square::at(4, 0), Square::at(3, 1));

    board.apply_move(move_).unwrap();
    let mut expected_castle_rights = BoardCastleRights::all();
    expected_castle_rights.white = ColorCastleRights::none();
    assert_eq!(board.castle_rights, expected_castle_rights);

    board.revert_move(move_).unwrap();
    let mut expected_castle_rights = BoardCastleRights::all();
    assert_eq!(board.castle_rights, expected_castle_rights);
}

#[test]
fn main_board_apply_and_revert_castle_rights_loss_through_capture() {
    let mut board = Board::create_empty();
    board.castle_rights = BoardCastleRights::all();
    board.add_pieces(&vec!(
        PieceKind::Rook.colored(Color::Black).at(0, 7),
        PieceKind::King.colored(Color::Black).at(4, 7),
        PieceKind::Rook.colored(Color::Black).at(7, 7),
        PieceKind::Pawn.colored(Color::White).at(1, 6),
        PieceKind::Pawn.colored(Color::White).at(6, 6)));
    let original_board = board.clone();

    // Moving the king-side Rook looses queen side castle rights
    let queen_side_capture = TestMove::from_to_capture(&board, Square::at(1, 6), Square::at(0, 7), PieceKind::Rook.colored(Color::Black).at(0, 7));

    board.apply_move(queen_side_capture).unwrap();
    let mut expected_castle_rights = BoardCastleRights::all();
    expected_castle_rights.black.queen_side = false;
    assert_eq!(board.castle_rights, expected_castle_rights);

    board.revert_move(queen_side_capture).unwrap();
    let mut expected_castle_rights = BoardCastleRights::all();
    assert_eq!(board.castle_rights, expected_castle_rights);

    // Moving the queen-side Rook looses king side castle rights
    let queen_side_capture = TestMove::from_to_capture(&board, Square::at(6, 6), Square::at(7, 7), PieceKind::Rook.colored(Color::Black).at(7, 7));

    board.apply_move(queen_side_capture).unwrap();
    let mut expected_castle_rights = BoardCastleRights::all();
    expected_castle_rights.black.king_side = false;
    assert_eq!(board.castle_rights, expected_castle_rights);

    board.revert_move(queen_side_capture).unwrap();
    let mut expected_castle_rights = BoardCastleRights::all();
    assert_eq!(board.castle_rights, expected_castle_rights);
}

#[test]
fn main_board_apply_and_revert_no_castle_rights() {
    // Test that with no castle rights to begin with, reverting a move that would loose castle
    // rights doesn't accidentally grant them.

    let mut board = Board::create_empty();
    board.castle_rights = BoardCastleRights::none();
    board.add_pieces(&vec!(
        PieceKind::Rook.colored(Color::White).at(0, 0),
        PieceKind::King.colored(Color::White).at(4, 0),
        PieceKind::Rook.colored(Color::White).at(7, 0)));

    // Moving the king-side Rook
    let move_ = TestMove::from_to(&board, Square::at(0, 0), Square::at(0, 1));
    board.apply_move(move_).unwrap();
    assert_eq!(board.castle_rights, BoardCastleRights::none());

    board.revert_move(move_).unwrap();
    assert_eq!(board.castle_rights, BoardCastleRights::none());

    // Moving the queen-side Rook looses king side castle rights
    let move_ = TestMove::from_to(&board, Square::at(7, 0), Square::at(7, 1));
    board.apply_move(move_).unwrap();
    assert_eq!(board.castle_rights, BoardCastleRights::none());

    board.revert_move(move_).unwrap();
    assert_eq!(board.castle_rights, BoardCastleRights::none());

    // Moving the King looses castle rights on both sides
    let move_ = TestMove::from_to(&board, Square::at(4, 0), Square::at(3, 1));
    board.apply_move(move_).unwrap();
    assert_eq!(board.castle_rights, BoardCastleRights::none());

    board.revert_move(move_).unwrap();
    assert_eq!(board.castle_rights, BoardCastleRights::none());
}

#[test]
fn main_static_evaluation_basic() {
    let mut board = Board::create_empty();

    board.add_pieces(&vec!(
        PieceKind::Pawn.colored(Color::White).at(0, 1)));
    assert_eq!(static_evaluation(&board), 1);

    board = Board::create_empty();
    board.add_pieces(&vec!(
        PieceKind::Pawn.colored(Color::White).at(0, 1),
        PieceKind::Pawn.colored(Color::Black).at(0, 2),
        PieceKind::Pawn.colored(Color::Black).at(0, 3)));
    assert_eq!(static_evaluation(&board), -1);
}

#[test]
fn main_minimax_basic() {
    let minimax = |board: &mut Board, depth: u32, neg: i32| {
        MinimaxEvaluator::create(depth).minimax(board, 0, neg).0
    };

    // Just a white pawn
    let mut board = Board::create_empty();
    board.add_pieces(&vec!(
        PieceKind::Pawn.colored(Color::White).at(0, 1)));
    assert_eq!(minimax(&mut board, 3, 1), 1);

    // Just a black pawn
    let mut board = Board::create_empty();
    board.side = Color::Black;
    board.add_pieces(&vec!(
        PieceKind::Pawn.colored(Color::Black).at(0, 6)));
    assert_eq!(minimax(&mut board, 3, -1), -1);

    // A white pawn that can capture a black pawn
    let mut board = Board::create_empty();
    board.add_pieces(&vec!(
        PieceKind::Pawn.colored(Color::White).at(0, 1),
        PieceKind::Pawn.colored(Color::Black).at(1, 2)));
    assert_eq!(minimax(&mut board, 3, 1), 1);

    // A black pawn that can capture a white pawn
    let mut board = Board::create_empty();
    board.side = Color::Black;
    board.add_pieces(&vec!(
        PieceKind::Pawn.colored(Color::White).at(0, 2),
        PieceKind::Pawn.colored(Color::Black).at(1, 3)));
    assert_eq!(minimax(&mut board, 3, -1), -1);

    // A white pawn that can capture a black pawn and another black pawn
    let mut board = Board::create_empty();
    board.add_pieces(&vec!(
        PieceKind::Pawn.colored(Color::White).at(0, 1),
        PieceKind::Pawn.colored(Color::Black).at(1, 2),
        PieceKind::Pawn.colored(Color::Black).at(3, 2)));
    assert_eq!(minimax(&mut board, 3, 1), 0);

    // A white pawn that will be capture by a black pawn after it moves
    let mut board = Board::create_empty();
    board.add_pieces(&vec!(
        PieceKind::Pawn.colored(Color::White).at(0, 4),
        PieceKind::Pawn.colored(Color::Black).at(1, 6)));
    assert_eq!(minimax(&mut board, 3, 1), -1);

    // A white pawn that will capture a black pawn after the black pawn moves
    let mut board = Board::create_empty();
    board.side = Color::Black;
    board.add_pieces(&vec!(
        PieceKind::Pawn.colored(Color::White).at(0, 3),
        PieceKind::Pawn.colored(Color::Black).at(1, 5)));
    assert_eq!(minimax(&mut board, 3, -1), 1);

    // A white pawn that will be captured by a black pawn after a couple of moves
    let mut board = Board::create_empty();
    board.side = Color::Black;
    board.add_pieces(&vec!(
        PieceKind::Pawn.colored(Color::White).at(0, 2),
        PieceKind::Pawn.colored(Color::Black).at(1, 5), ));
    assert_eq!(minimax(&mut board, 10, -1), -1);

    // ...
    let mut board = Board::create_empty();
    board.side = Color::Black;
    board.add_pieces(&vec!(
        PieceKind::Pawn.colored(Color::White).at(0, 3),
        PieceKind::Pawn.colored(Color::White).at(1, 5),
        PieceKind::Pawn.colored(Color::Black).at(0, 6), ));
    assert_eq!(minimax(&mut board, 10, -1), -1);
}

#[test]
fn main_line_to_string() {
    let mut board = Board::create_empty();
    board.add_pieces(&vec!(
      PieceKind::Pawn.colored(Color::White).at(0, 1),
      PieceKind::Pawn.colored(Color::White).at(0, 6)
    ));

    let mut moves = Vec::new();
    moves.push(TestMove::from_to(&board, Square::at(0, 1), Square::at(0, 3)));
    moves.push(TestMove::from_to(&board, Square::at(0, 6), Square::at(0, 5)));

    let mut line = Line::from_moves(moves);

    assert_eq!(line.to_string(), "a1-a3 a6-a5");
}
