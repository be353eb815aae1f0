use mess::board::Board;
use mess::move_generation::{generate_moves, is_check};
use mess::test_util::TestMove;
use mess::types::{BoardCastleRights, Castle, Color, PieceKind, Square};

#[test]
fn move_generation_pawn_moves() {
    let mut board = Board::create_empty();
    board.add_pieces(&vec!(
        PieceKind::Pawn.colored(Color::Black).at(0, 6),
        PieceKind::Pawn.colored(Color::White).at(2, 1),
        PieceKind::Pawn.colored(Color::White).at(3, 2)));

    let expected_moves = vec!(
        TestMove::from_to(&board, Square::at(2, 1), Square::at(2, 2)),
        TestMove::from_to_en_passant(&board, Square::at(2, 1), Square::at(2, 3), Square::at(2, 2)),
        TestMove::from_to(&board, Square::at(3, 2), Square::at(3, 3)),
    );
    assert_eq!(generate_moves(&board), expected_moves);

    board.side = Color::Black;
    let expected_moves = vec!(
        TestMove::from_to(&board, Square::at(0, 6), Square::at(0, 5)),
        TestMove::from_to_en_passant(&board, Square::at(0, 6), Square::at(0, 4), Square::at(0, 5)),
    );
    assert_eq!(generate_moves(&board), expected_moves);
}

#[test]
fn move_generation_pawn_moves_blocked() {
    let mut board = Board::create_empty();
    board.add_pieces(&vec!(
        PieceKind::Pawn.colored(Color::Black).at(0, 6),
        PieceKind::Dummy.colored(Color::White).at(0, 4),
        PieceKind::Pawn.colored(Color::Black).at(5, 3),
        PieceKind::Dummy.colored(Color::White).at(5, 2),
        PieceKind::Pawn.colored(Color::White).at(2, 1),
        PieceKind::Dummy.colored(Color::White).at(2, 2),
        PieceKind::Pawn.colored(Color::White).at(3, 1),
        PieceKind::Dummy.colored(Color::White).at(3, 3)));

    let expected_moves = vec!(
        TestMove::from_to(&board, Square::at(3, 1), Square::at(3, 2))
    );
    assert_eq!(generate_moves(&board), expected_moves);

    board.side = Color::Black;
    let expected_moves = vec!(
        TestMove::from_to(&board, Square::at(0, 6), Square::at(0, 5))
    );
    assert_eq!(generate_moves(&board), expected_moves);
}

#[test]
fn move_generation_pawn_moves_capture() {
    let mut board = Board::create_empty();
    board.side = Color::Black;
    board.add_pieces(&vec!(
        PieceKind::Pawn.colored(Color::Black).at(0, 6),
        PieceKind::Pawn.colored(Color::White).at(0, 5),
        PieceKind::Pawn.colored(Color::White).at(1, 5), ));
    let expected_moves = vec!(
        TestMove::from_to_capture(&board, Square::at(0, 6), Square::at(1, 5), PieceKind::Pawn.colored(Color::White).at(1, 5)),
    );
    assert_eq!(generate_moves(&board), expected_moves);
}

#[test]
fn move_generation_pawn_moves_en_passant() {
    let mut board = Board::create_empty();
    board.add_pieces(&vec!(
        PieceKind::Pawn.colored(Color::White).at(1, 4),
        PieceKind::Pawn.colored(Color::Black).at(2, 4),
        PieceKind::Pawn.colored(Color::Black).at(4, 3),
        PieceKind::Pawn.colored(Color::White).at(5, 3),
        PieceKind::Pawn.colored(Color::Black).at(7, 3), ));

    board.en_passant = Some(Square::at(2, 5));
    let mut expected_moves = vec!(
        TestMove::from_to(&board, Square::at(1, 4), Square::at(1, 5)),
        TestMove::from_to_capture(&board, Square::at(1, 4), Square::at(2, 5), PieceKind::Pawn.colored(Color::Black).at(2, 4)),
        TestMove::from_to(&board, Square::at(5, 3), Square::at(5, 4))
    );
    for move_ in expected_moves.iter_mut() {
        move_.en_passant_before = board.en_passant;
    }
    assert_eq!(generate_moves(&board), expected_moves);

    board.side = Color::Black;
    board.en_passant = Some(Square::at(5, 2));
    let mut expected_moves = vec!(
        TestMove::from_to(&board, Square::at(2, 4), Square::at(2, 3)),
        TestMove::from_to(&board, Square::at(4, 3), Square::at(4, 2)),
        TestMove::from_to_capture(&board, Square::at(4, 3), Square::at(5, 2), PieceKind::Pawn.colored(Color::White).at(5, 3)),
        TestMove::from_to(&board, Square::at(7, 3), Square::at(7, 2)),
    );
    for move_ in expected_moves.iter_mut() {
        move_.en_passant_before = board.en_passant;
    }
    assert_eq!(generate_moves(&board), expected_moves);
}

#[test]
fn move_generation_pawn_moves_promotion() {
    // White pawn that can promote
    let mut board = Board::create_empty();
    board.add_pieces(&vec!(
        PieceKind::Pawn.colored(Color::White).at(1, 6),
        PieceKind::Pawn.colored(Color::Black).at(2, 7), ));
    let expected_moves = vec!(
        TestMove::promotion(&board, Square::at(1, 6), Square::at(1, 7), PieceKind::Knight),
        TestMove::promotion(&board, Square::at(1, 6), Square::at(1, 7), PieceKind::Bishop),
        TestMove::promotion(&board, Square::at(1, 6), Square::at(1, 7), PieceKind::Rook),
        TestMove::promotion(&board, Square::at(1, 6), Square::at(1, 7), PieceKind::Queen),
        TestMove::promotion_capture(&board, Square::at(1, 6), Square::at(2, 7), PieceKind::Pawn.colored(Color::Black).at(2, 7), PieceKind::Knight),
        TestMove::promotion_capture(&board, Square::at(1, 6), Square::at(2, 7), PieceKind::Pawn.colored(Color::Black).at(2, 7), PieceKind::Bishop),
        TestMove::promotion_capture(&board, Square::at(1, 6), Square::at(2, 7), PieceKind::Pawn.colored(Color::Black).at(2, 7), PieceKind::Rook),
        TestMove::promotion_capture(&board, Square::at(1, 6), Square::at(2, 7), PieceKind::Pawn.colored(Color::Black).at(2, 7), PieceKind::Queen),
    );
    assert_eq!(generate_moves(&board), expected_moves);

    // Black pawn that can promote
    let mut board = Board::create_empty();
    board.side = Color::Black;
    board.add_pieces(&vec!(
        PieceKind::Pawn.colored(Color::Black).at(1, 1),
        PieceKind::Pawn.colored(Color::White).at(2, 0), ));
    let expected_moves = vec!(
        TestMove::promotion(&board, Square::at(1, 1), Square::at(1, 0), PieceKind::Knight),
        TestMove::promotion(&board, Square::at(1, 1), Square::at(1, 0), PieceKind::Bishop),
        TestMove::promotion(&board, Square::at(1, 1), Square::at(1, 0), PieceKind::Rook),
        TestMove::promotion(&board, Square::at(1, 1), Square::at(1, 0), PieceKind::Queen),
        TestMove::promotion_capture(&board, Square::at(1, 1), Square::at(2, 0), PieceKind::Pawn.colored(Color::White).at(2, 0), PieceKind::Knight),
        TestMove::promotion_capture(&board, Square::at(1, 1), Square::at(2, 0), PieceKind::Pawn.colored(Color::White).at(2, 0), PieceKind::Bishop),
        TestMove::promotion_capture(&board, Square::at(1, 1), Square::at(2, 0), PieceKind::Pawn.colored(Color::White).at(2, 0), PieceKind::Rook),
        TestMove::promotion_capture(&board, Square::at(1, 1), Square::at(2, 0), PieceKind::Pawn.colored(Color::White).at(2, 0), PieceKind::Queen),
    );
    assert_eq!(generate_moves(&board), expected_moves);
}

#[test]
fn move_generation_rook_moves() {
    let mut board = Board::create_empty();
    board.add_pieces(&vec!(
        PieceKind::Rook.colored(Color::White).at(3, 3),
        PieceKind::Dummy.colored(Color::White).at(3, 5),
        PieceKind::Pawn.colored(Color::Black).at(1, 3), ));

    let expected_moves = vec!(
        TestMove::from_to(&board, Square::at(3, 3), Square::at(4, 3)),
        TestMove::from_to(&board, Square::at(3, 3), Square::at(5, 3)),
        TestMove::from_to(&board, Square::at(3, 3), Square::at(6, 3)),
        TestMove::from_to(&board, Square::at(3, 3), Square::at(7, 3)),
        TestMove::from_to(&board, Square::at(3, 3), Square::at(2, 3)),
        TestMove::from_to_capture(&board, Square::at(3, 3), Square::at(1, 3), PieceKind::Pawn.colored(Color::Black).at(1, 3)),
        TestMove::from_to(&board, Square::at(3, 3), Square::at(3, 4)),
        TestMove::from_to(&board, Square::at(3, 3), Square::at(3, 2)),
        TestMove::from_to(&board, Square::at(3, 3), Square::at(3, 1)),
        TestMove::from_to(&board, Square::at(3, 3), Square::at(3, 0))
    );
    assert_eq!(generate_moves(&board), expected_moves);
}

#[test]
fn move_generation_bishop_moves() {
    let mut board = Board::create_empty();
    board.add_pieces(&vec!(
        PieceKind::Bishop.colored(Color::White).at(3, 3),
        PieceKind::Dummy.colored(Color::White).at(1, 1),
        PieceKind::Pawn.colored(Color::Black).at(1, 5), ));

    let expected_moves = vec!(
        TestMove::from_to(&board, Square::at(3, 3), Square::at(4, 4)),
        TestMove::from_to(&board, Square::at(3, 3), Square::at(5, 5)),
        TestMove::from_to(&board, Square::at(3, 3), Square::at(6, 6)),
        TestMove::from_to(&board, Square::at(3, 3), Square::at(7, 7)),
        TestMove::from_to(&board, Square::at(3, 3), Square::at(2, 4)),
        TestMove::from_to_capture(&board, Square::at(3, 3), Square::at(1, 5), PieceKind::Pawn.colored(Color::Black).at(1, 5)),
        TestMove::from_to(&board, Square::at(3, 3), Square::at(2, 2)),
        TestMove::from_to(&board, Square::at(3, 3), Square::at(4, 2)),
        TestMove::from_to(&board, Square::at(3, 3), Square::at(5, 1)),
        TestMove::from_to(&board, Square::at(3, 3), Square::at(6, 0)),
    );
    assert_eq!(generate_moves(&board), expected_moves);
}

#[test]
fn move_generation_queen_moves() {
    let mut board = Board::create_empty();
    board.add_pieces(&vec!(
        PieceKind::Queen.colored(Color::White).at(3, 3),
        PieceKind::Dummy.colored(Color::White).at(1, 1),
        PieceKind::Pawn.colored(Color::Black).at(1, 5),
        PieceKind::Dummy.colored(Color::White).at(3, 5),
        PieceKind::Pawn.colored(Color::Black).at(1, 3), ));

    let expected_moves = vec!(
        TestMove::from_to(&board, Square::at(3, 3), Square::at(4, 3)),
        TestMove::from_to(&board, Square::at(3, 3), Square::at(5, 3)),
        TestMove::from_to(&board, Square::at(3, 3), Square::at(6, 3)),
        TestMove::from_to(&board, Square::at(3, 3), Square::at(7, 3)),
        TestMove::from_to(&board, Square::at(3, 3), Square::at(2, 3)),
        TestMove::from_to_capture(&board, Square::at(3, 3), Square::at(1, 3), PieceKind::Pawn.colored(Color::Black).at(1, 3)),
        TestMove::from_to(&board, Square::at(3, 3), Square::at(3, 4)),
        TestMove::from_to(&board, Square::at(3, 3), Square::at(3, 2)),
        TestMove::from_to(&board, Square::at(3, 3), Square::at(3, 1)),
        TestMove::from_to(&board, Square::at(3, 3), Square::at(3, 0)),
        TestMove::from_to(&board, Square::at(3, 3), Square::at(4, 4)),
        TestMove::from_to(&board, Square::at(3, 3), Square::at(5, 5)),
        TestMove::from_to(&board, Square::at(3, 3), Square::at(6, 6)),
        TestMove::from_to(&board, Square::at(3, 3), Square::at(7, 7)),
        TestMove::from_to(&board, Square::at(3, 3), Square::at(2, 4)),
        TestMove::from_to_capture(&board, Square::at(3, 3), Square::at(1, 5), PieceKind::Pawn.colored(Color::Black).at(1, 5)),
        TestMove::from_to(&board, Square::at(3, 3), Square::at(2, 2)),
        TestMove::from_to(&board, Square::at(3, 3), Square::at(4, 2)),
        TestMove::from_to(&board, Square::at(3, 3), Square::at(5, 1)),
        TestMove::from_to(&board, Square::at(3, 3), Square::at(6, 0)),
    );
    assert_eq!(generate_moves(&board), expected_moves);
}

#[test]
fn move_generation_king_basic_moves() {
    // Freestanding King
    let mut board = Board::create_empty();
    board.add_pieces(&vec!(
        PieceKind::King.colored(Color::White).at(3, 2), ));
    let expected_moves = vec!(
        TestMove::from_to(&board, Square::at(3, 2), Square::at(4, 2)),
        TestMove::from_to(&board, Square::at(3, 2), Square::at(2, 2)),
        TestMove::from_to(&board, Square::at(3, 2), Square::at(3, 3)),
        TestMove::from_to(&board, Square::at(3, 2), Square::at(3, 1)),
        TestMove::from_to(&board, Square::at(3, 2), Square::at(4, 3)),
        TestMove::from_to(&board, Square::at(3, 2), Square::at(2, 3)),
        TestMove::from_to(&board, Square::at(3, 2), Square::at(2, 1)),
        TestMove::from_to(&board, Square::at(3, 2), Square::at(4, 1))
    );
    assert_eq!(generate_moves(&board), expected_moves);

    // Blocked and capturing king at the edge of the board
    let mut board = Board::create_empty();
    board.add_pieces(&vec!(
        PieceKind::King.colored(Color::White).at(3, 0),
        PieceKind::Dummy.colored(Color::White).at(4, 0),
        PieceKind::Pawn.colored(Color::Black).at(2, 1)));
    let expected_moves = vec!(
        TestMove::from_to(&board, Square::at(3, 0), Square::at(2, 0)),
        TestMove::from_to(&board, Square::at(3, 0), Square::at(3, 1)),
        TestMove::from_to(&board, Square::at(3, 0), Square::at(4, 1)),
        TestMove::from_to_capture(&board, Square::at(3, 0), Square::at(2, 1), PieceKind::Pawn.colored(Color::Black).at(2, 1))
    );
    assert_eq!(generate_moves(&board), expected_moves);
}

#[test]
fn move_generation_king_castling_moves() {
    let mut board = Board::create_empty();
    board.add_pieces(&vec!(
        PieceKind::King.colored(Color::White).at(4, 0),
        PieceKind::Rook.colored(Color::White).at(0, 0),
        PieceKind::Rook.colored(Color::White).at(7, 0)));

    // No castle rights, no castle
    board.castle_rights = BoardCastleRights::none();
    assert!(!generate_moves(&board).contains(&TestMove::castle(&board, Color::White, Castle::KingSide)));
    assert!(!generate_moves(&board).contains(&TestMove::castle(&board, Color::White, Castle::QueenSide)));

    // Castle only where rights are granted
    board.castle_rights = BoardCastleRights::none();
    board.castle_rights.white.king_side = true;
    assert!(generate_moves(&board).contains(&TestMove::castle(&board, Color::White, Castle::KingSide)));
    assert!(!generate_moves(&board).contains(&TestMove::castle(&board, Color::White, Castle::QueenSide)));
    board.castle_rights.white.queen_side = true;
    assert!(generate_moves(&board).contains(&TestMove::castle(&board, Color::White, Castle::KingSide)));
    assert!(generate_moves(&board).contains(&TestMove::castle(&board, Color::White, Castle::QueenSide)));

    // If all castle rights for both side are granted, then castle
    board.castle_rights = BoardCastleRights::all();
    assert!(generate_moves(&board).contains(&TestMove::castle(&board, Color::White, Castle::KingSide)));
    assert!(generate_moves(&board).contains(&TestMove::castle(&board, Color::White, Castle::QueenSide)));
}

#[test]
fn move_generation_king_castling_moves_blocked() {
    let mut original_board = Board::create_empty();
    original_board.add_pieces(&vec!(
        PieceKind::King.colored(Color::Black).at(4, 7),
        PieceKind::Rook.colored(Color::Black).at(0, 7),
        PieceKind::Rook.colored(Color::Black).at(7, 7)));
    original_board.side = Color::Black;
    original_board.castle_rights = BoardCastleRights::all();

    // No blockers added yet, we can still castle
    let mut board = original_board.clone();
    assert!(generate_moves(&board).contains(&TestMove::castle(&board, Color::Black, Castle::KingSide)));
    assert!(generate_moves(&board).contains(&TestMove::castle(&board, Color::Black, Castle::QueenSide)));

    // Blocker on the queen side, not on the king side
    let mut board = original_board.clone();
    board.add_piece(&PieceKind::Dummy.colored(Color::Black).at(1, 7));
    assert!(generate_moves(&board).contains(&TestMove::castle(&board, Color::Black, Castle::KingSide)));
    assert!(!generate_moves(&board).contains(&TestMove::castle(&board, Color::Black, Castle::QueenSide)));

    // Blocker on the king side, not on the queen side
    let mut board = original_board.clone();
    board.add_piece(&PieceKind::Dummy.colored(Color::White).at(5, 7));
    assert!(!generate_moves(&board).contains(&TestMove::castle(&board, Color::Black, Castle::KingSide)));
    assert!(generate_moves(&board).contains(&TestMove::castle(&board, Color::Black, Castle::QueenSide)));
}

#[test]
fn move_generation_knight_moves() {
    // Freestanding and capturing knight
    let mut board = Board::create_empty();
    board.add_pieces(&vec!(
        PieceKind::Knight.colored(Color::White).at(3, 4),
        PieceKind::Pawn.colored(Color::Black).at(4, 3),
        PieceKind::Pawn.colored(Color::Black).at(4, 4),
        PieceKind::Pawn.colored(Color::Black).at(5, 3)));
    let expected_moves = vec!(
        TestMove::from_to(&board, Square::at(3, 4), Square::at(1, 3)),
        TestMove::from_to(&board, Square::at(3, 4), Square::at(2, 2)),
        TestMove::from_to(&board, Square::at(3, 4), Square::at(4, 2)),
        TestMove::from_to_capture(&board, Square::at(3, 4), Square::at(5, 3), PieceKind::Pawn.colored(Color::Black).at(5, 3)),
        TestMove::from_to(&board, Square::at(3, 4), Square::at(5, 5)),
        TestMove::from_to(&board, Square::at(3, 4), Square::at(4, 6)),
        TestMove::from_to(&board, Square::at(3, 4), Square::at(2, 6)),
        TestMove::from_to(&board, Square::at(3, 4), Square::at(1, 5))
    );
    assert_eq!(generate_moves(&board), expected_moves);

    // Blocked knight at the edge of the board
    let mut board = Board::create_empty();
    board.add_pieces(&vec!(
        PieceKind::Knight.colored(Color::White).at(0, 7),
        PieceKind::Dummy.colored(Color::White).at(1, 5)));
    let expected_moves = vec!(
        TestMove::from_to(&board, Square::at(0, 7), Square::at(2, 6))
    );
    assert_eq!(generate_moves(&board), expected_moves);
}

#[test]
fn is_check_empty_board() {
    let mut board = Board::create_empty();
    assert_eq!(is_check(&board, Color::Black), false);
    assert_eq!(is_check(&board, Color::White), false);
}

#[test]
fn is_check_by_rook() {
    let mut board = Board::create_empty();

    // White rook checks black
    board.add_pieces(&vec![
        PieceKind::King.colored(Color::White).at(3, 3),
        PieceKind::Rook.colored(Color::White).at(4, 3),
        PieceKind::King.colored(Color::Black).at(4, 6)
    ]);
    assert_eq!(is_check(&board, Color::Black), true);

    // White is not in check
    assert_eq!(is_check(&board, Color::White), false);

    // A white pawn blocks the black rook from checking the king
    board.add_piece(&PieceKind::Pawn.colored(Color::Black).at(4, 5));
    assert_eq!(is_check(&board, Color::Black), false);
}

#[test]
fn is_check_by_knight() {
    let mut board = Board::create_empty();

    // White knight checks black
    board.add_pieces(&vec![
        PieceKind::Knight.colored(Color::White).at(2, 5),
        PieceKind::King.colored(Color::Black).at(4, 6)
    ]);
    assert_eq!(is_check(&board, Color::Black), true);
}

#[test]
fn is_check_by_bishop() {
    let mut board = Board::create_empty();

    // Black bishop checks white
    board.add_pieces(&vec![
        PieceKind::Bishop.colored(Color::Black).at(2, 4),
        PieceKind::King.colored(Color::White).at(4, 6)
    ]);
    assert_eq!(is_check(&board, Color::White), true);

    // A black knight blocks the black bishop from checking
    board.add_piece(&PieceKind::Knight.colored(Color::Black).at(3, 5));
    assert_eq!(is_check(&board, Color::White), false);
}

#[test]
fn is_check_by_queen_horizontally() {
    let mut board = Board::create_empty();

    // White queen checks black horizontally
    board.add_pieces(&vec![
        PieceKind::Queen.colored(Color::White).at(5, 4),
        PieceKind::King.colored(Color::Black).at(1, 4)
    ]);
    assert_eq!(is_check(&board, Color::Black), true);

    // A white knight blocks the white queen from checking
    board.add_piece(&PieceKind::Knight.colored(Color::White).at(3, 4));
    assert_eq!(is_check(&board, Color::Black), false);
}

#[test]
fn is_check_by_queen_diagonally() {
    let mut board = Board::create_empty();

    // White queen checks black horizontally
    board.add_pieces(&vec![
        PieceKind::Queen.colored(Color::White).at(0, 5),
        PieceKind::King.colored(Color::Black).at(1, 4)
    ]);
    assert_eq!(is_check(&board, Color::Black), true);
}

#[test]
fn is_check_by_pawn() {
    let mut board = Board::create_empty();

    // White pawn checks black
    let mut board = Board::create_empty();
    board.add_pieces(&vec![
        PieceKind::Pawn.colored(Color::White).at(0, 3),
        PieceKind::King.colored(Color::Black).at(1, 4)
    ]);
    assert_eq!(is_check(&board, Color::Black), true);

    // White pawn horizontally in front of black king does not check
    let mut board = Board::create_empty();
    board.add_pieces(&vec![
        PieceKind::Pawn.colored(Color::White).at(1, 3),
        PieceKind::King.colored(Color::Black).at(1, 4)
    ]);
    assert_eq!(is_check(&board, Color::Black), false);

    // White pawn has passed the black king and therefore does not check
    let mut board = Board::create_empty();
    board.add_pieces(&vec![
        PieceKind::Pawn.colored(Color::White).at(0, 5),
        PieceKind::King.colored(Color::Black).at(1, 4)
    ]);
    assert_eq!(is_check(&board, Color::Black), false);

    // Black pawn checks white
    let mut board = Board::create_empty();
    board.side = Color::Black;
    board.add_pieces(&vec![
        PieceKind::Pawn.colored(Color::Black).at(0, 5),
        PieceKind::King.colored(Color::White).at(1, 4)
    ]);
    assert_eq!(is_check(&board, Color::White), true);

    // Black pawn has passed the white king and therefore does not check
    let mut board = Board::create_empty();
    board.side = Color::Black;
    board.add_pieces(&vec![
        PieceKind::Pawn.colored(Color::Black).at(0, 3),
        PieceKind::King.colored(Color::White).at(1, 4)
    ]);
    assert_eq!(is_check(&board, Color::White), false);
}
