use kno3_chess_engine::board::Chessboard;
use kno3_chess_engine::error::MoveError;
use kno3_chess_engine::piece::{Piece, PieceKind};
use kno3_chess_engine::GameState;

const WHITE_PAWN: Piece = Piece { kind: PieceKind::Pawn, white: true };
const WHITE_ROOK: Piece = Piece { kind: PieceKind::Rook, white: true };
const BLACK_PAWN: Piece = Piece { kind: PieceKind::Pawn, white: false };

fn game_with(board: Chessboard) -> GameState {
    GameState { board }
}

fn castling_position() -> GameState {
    GameState::from_fields("r3k2r/8/8/8/8/8/8/R3K2R", "w", "KQkq", "-").unwrap()
}

#[test]
fn pawn_on_e2_has_single_and_double_push() {
    let gs = GameState::new();
    assert_eq!(gs.possible_moves(12), Some(vec![20, 28]));
}

#[test]
fn rook_on_a1_is_blocked() {
    let gs = GameState::new();
    assert_eq!(gs.possible_moves(0), Some(vec![]));
}

#[test]
fn after_e2_e4_the_pawn_stands_on_e4() {
    let mut gs = GameState::new();
    assert_eq!(gs.move_piece_legally(12, 28), Ok(()));
    assert_eq!(gs.possible_moves(12), None);
    assert_eq!(gs.board.piece_at_position(12), None);
    assert_eq!(gs.board.piece_at_position(28), Some(WHITE_PAWN));
    assert_eq!(gs.board.white_pawns, 0xff00 & !(1 << 12) | (1 << 28));
    assert!(!gs.board.white_turn);
}

#[test]
fn squares_without_a_piece_have_no_moves() {
    let gs = GameState::new();
    for square in 16..48u8 {
        assert_eq!(gs.possible_moves(square), None);
    }
    for square in 64..=255u8 {
        assert_eq!(gs.possible_moves(square), None);
    }
    let empty = game_with(Chessboard::empty());
    for square in 0..64u8 {
        assert_eq!(empty.possible_moves(square), None);
    }
}

#[test]
fn every_piece_of_the_initial_position_has_a_list() {
    let gs = GameState::new();
    for square in (0..16u8).chain(48..64u8) {
        assert!(gs.possible_moves(square).is_some());
    }
    assert_eq!(gs.possible_moves(1), Some(vec![16, 18]));
    assert_eq!(gs.possible_moves(3), Some(vec![]));
    assert_eq!(gs.possible_moves(4), Some(vec![]));
    assert_eq!(gs.possible_moves(52), Some(vec![44, 36]));
}

#[test]
fn rook_moves_stay_on_rank_and_file() {
    for from in 0..64u8 {
        let mut board = Chessboard::empty();
        board.white_rooks = 1 << from;
        let moves = game_with(board).possible_rook_moves(from, true);
        assert_eq!(moves.len(), 14);
        for to in moves {
            assert!(to < 64 && to != from);
            assert!(to / 8 == from / 8 || to % 8 == from % 8);
        }
    }
}

#[test]
fn bishop_moves_stay_on_diagonals() {
    for from in 0..64u8 {
        let mut board = Chessboard::empty();
        board.black_bishops = 1 << from;
        let moves = game_with(board).possible_bishop_moves(from, false);
        for to in moves {
            assert!(to < 64 && to != from);
            let df = (to % 8) as i32 - (from % 8) as i32;
            let dr = (to / 8) as i32 - (from / 8) as i32;
            assert_eq!(df.abs(), dr.abs());
        }
    }
}

#[test]
fn rook_in_the_corner_runs_along_both_edges() {
    let mut board = Chessboard::empty();
    board.white_rooks = 1 << 7;
    let gs = game_with(board);
    assert_eq!(
        gs.possible_rook_moves(7, true),
        vec![6, 5, 4, 3, 2, 1, 0, 15, 23, 31, 39, 47, 55, 63]
    );
}

#[test]
fn bishop_on_the_edge_has_two_rays() {
    let mut board = Chessboard::empty();
    board.white_bishops = 1 << 24;
    let gs = game_with(board);
    assert_eq!(gs.possible_bishop_moves(24, true), vec![33, 42, 51, 60, 17, 10, 3]);
}

#[test]
fn a_ray_ends_before_an_own_piece_and_on_a_capture() {
    let mut board = Chessboard::empty();
    board.white_rooks = 1 << 27;
    board.white_pawns = 1 << 29;
    board.black_pawns = 1 << 43;
    let gs = game_with(board);
    assert_eq!(
        gs.possible_rook_moves(27, true),
        vec![26, 25, 24, 28, 19, 11, 3, 35, 43]
    );
    assert_eq!(gs.move_until_piece(27, 1, 4, true), vec![28]);
    assert_eq!(gs.move_until_piece(27, 8, 4, true), vec![35, 43]);
    assert_eq!(gs.move_until_piece(27, 8, 1, true), vec![35]);
    assert_eq!(gs.move_until_piece(27, 8, 0, true), vec![]);
    assert_eq!(gs.move_until_piece(59, 8, 3, true), vec![]);
}

#[test]
fn queen_moves_are_rook_moves_then_bishop_moves() {
    let mut board = Chessboard::empty();
    board.white_queen = 1 << 27;
    let gs = game_with(board);
    let mut expected = gs.possible_rook_moves(27, true);
    expected.extend(gs.possible_bishop_moves(27, true));
    assert_eq!(gs.possible_queen_moves(27, true), expected);
    assert_eq!(expected.len(), 27);
    assert_eq!(gs.possible_moves(27), Some(expected));
}

#[test]
fn knight_moves_turn_with_the_board() {
    for from in 0..64u8 {
        let mut board = Chessboard::empty();
        board.white_knights = 1 << from;
        let mut turned = Chessboard::empty();
        turned.white_knights = 1 << (63 - from);
        let mut here = game_with(board).possible_knight_moves(from, true);
        let mut there: Vec<u8> = game_with(turned)
            .possible_knight_moves(63 - from, true)
            .into_iter()
            .map(|to| 63 - to)
            .collect();
        here.sort();
        there.sort();
        assert_eq!(here, there);
    }
}

#[test]
fn king_moves_turn_with_the_board() {
    for from in 0..64u8 {
        let mut board = Chessboard::empty();
        board.black_king = 1 << from;
        let mut turned = Chessboard::empty();
        turned.black_king = 1 << (63 - from);
        let mut here = game_with(board).possible_king_moves(from, false);
        let mut there: Vec<u8> = game_with(turned)
            .possible_king_moves(63 - from, false)
            .into_iter()
            .map(|to| 63 - to)
            .collect();
        here.sort();
        there.sort();
        assert_eq!(here, there);
    }
}

#[test]
fn knight_near_the_edges_does_not_wrap() {
    let mut board = Chessboard::empty();
    board.white_knights = (1 << 0) | (1 << 7) | (1 << 63) | (1 << 9);
    let gs = game_with(board);
    assert_eq!(gs.possible_knight_moves(0, true), vec![17, 10]);
    assert_eq!(gs.possible_knight_moves(7, true), vec![22, 13]);
    assert_eq!(gs.possible_knight_moves(63, true), vec![46, 53]);
    assert_eq!(gs.possible_knight_moves(9, true), vec![24, 26, 19, 3]);
    assert_eq!(gs.possible_knight_moves(64, true), vec![]);
}

#[test]
fn king_steps_go_by_offset_within_the_board() {
    let mut board = Chessboard::empty();
    board.white_king = 1 << 0;
    let gs = game_with(board);
    assert_eq!(gs.possible_king_moves(0, true), vec![7, 8, 9, 1]);
    assert_eq!(gs.possible_king_moves(63, true), vec![62, 54, 55, 56]);
    assert_eq!(gs.possible_king_moves(200, true), vec![]);
}

#[test]
fn pawn_pushes_need_vacant_squares() {
    let mut board = Chessboard::empty();
    board.white_pawns = 1 << 12;
    board.black_knights = 1 << 28;
    let gs = game_with(board);
    assert_eq!(gs.possible_pawn_moves(12, true), vec![20]);
    let mut blocked = Chessboard::empty();
    blocked.white_pawns = 1 << 12;
    blocked.black_knights = 1 << 20;
    assert_eq!(game_with(blocked).possible_pawn_moves(12, true), vec![]);
    let mut own = Chessboard::empty();
    own.black_pawns = (1 << 52) | (1 << 36);
    assert_eq!(game_with(own).possible_pawn_moves(52, false), vec![44]);
}

#[test]
fn pawn_captures_only_on_the_next_file() {
    let mut board = Chessboard::empty();
    board.white_pawns = (1 << 8) | (1 << 23);
    board.black_pawns = (1 << 15) | (1 << 17) | (1 << 32) | (1 << 30);
    let gs = game_with(board);
    assert_eq!(gs.possible_pawn_moves(8, true), vec![16, 24, 17]);
    assert_eq!(gs.possible_pawn_moves(23, true), vec![31, 30]);
    assert_eq!(gs.possible_pawn_moves(32, false), vec![24]);
    assert_eq!(gs.possible_pawn_moves(17, false), vec![9, 8]);
}

#[test]
fn a_capture_leaves_only_the_moved_piece() {
    let mut board = Chessboard::empty();
    board.white_pawns = 1 << 28;
    board.black_pawns = 1 << 35;
    let mut gs = game_with(board);
    assert_eq!(gs.move_piece_legally(28, 35), Ok(()));
    assert_eq!(gs.board.piece_at_position(35), Some(WHITE_PAWN));
    assert_eq!(gs.board.piece_at_position(28), None);
    assert_eq!(gs.board.white_pawns, 1 << 35);
    assert_eq!(gs.board.black_pawns, 0);
    assert_eq!(gs.board.both_side_pieces(), 1 << 35);
    assert_eq!(gs.board.en_passant, None);
    assert!(!gs.board.white_turn);
}

#[test]
fn a_move_without_a_piece_is_refused() {
    let mut gs = GameState::new();
    let before = gs;
    assert_eq!(gs.move_piece_legally(30, 38), Err(MoveError::NoPieceAtSource));
    assert_eq!(gs.move_piece_legally(64, 0), Err(MoveError::NoPieceAtSource));
    assert_eq!(gs, before);
}

#[test]
fn a_move_of_the_other_side_is_refused() {
    let mut gs = GameState::new();
    let before = gs;
    assert_eq!(gs.move_piece_legally(52, 44), Err(MoveError::WrongSideToMove));
    assert_eq!(gs, before);
    assert_eq!(gs.move_piece_legally(12, 28), Ok(()));
    assert_eq!(gs.move_piece_legally(11, 27), Err(MoveError::WrongSideToMove));
    assert_eq!(gs.move_piece_legally(52, 44), Ok(()));
}

#[test]
fn a_move_to_a_square_out_of_reach_is_refused() {
    let mut gs = GameState::new();
    let before = gs;
    assert_eq!(gs.move_piece_legally(12, 36), Err(MoveError::IllegalTarget));
    assert_eq!(gs.move_piece_legally(12, 12), Err(MoveError::IllegalTarget));
    assert_eq!(gs.move_piece_legally(0, 8), Err(MoveError::IllegalTarget));
    assert_eq!(gs.move_piece_legally(12, 200), Err(MoveError::IllegalTarget));
    assert_eq!(gs, before);
}

#[test]
fn the_en_passant_square_lasts_one_ply() {
    let mut gs = GameState::new();
    assert_eq!(gs.move_piece_legally(12, 28), Ok(()));
    assert_eq!(gs.board.en_passant, Some(20));
    assert_eq!(gs.move_piece_legally(51, 35), Ok(()));
    assert_eq!(gs.board.en_passant, Some(43));
    assert_eq!(gs.move_piece_legally(6, 21), Ok(()));
    assert_eq!(gs.board.en_passant, None);
    assert_eq!(gs.move_piece_legally(52, 44), Ok(()));
    assert_eq!(gs.board.en_passant, None);
}

#[test]
fn a_rook_that_leaves_home_ends_its_castling_right() {
    let mut gs = castling_position();
    assert_eq!(gs.move_piece_legally(0, 1), Ok(()));
    let rights = gs.board.castling_rights;
    assert!(rights.white_king_side && !rights.white_queen_side);
    assert!(rights.black_king_side && rights.black_queen_side);
    assert_eq!(gs.move_piece_legally(63, 62), Ok(()));
    let rights = gs.board.castling_rights;
    assert!(rights.white_king_side && !rights.white_queen_side);
    assert!(!rights.black_king_side && rights.black_queen_side);
}

#[test]
fn a_king_that_leaves_home_ends_both_castling_rights() {
    let mut gs = castling_position();
    assert_eq!(gs.move_piece_legally(4, 12), Ok(()));
    let rights = gs.board.castling_rights;
    assert!(!rights.white_king_side && !rights.white_queen_side);
    assert!(rights.black_king_side && rights.black_queen_side);
    assert_eq!(gs.move_piece_legally(60, 59), Ok(()));
    let rights = gs.board.castling_rights;
    assert!(!rights.black_king_side && !rights.black_queen_side);
}

#[test]
fn a_rook_captured_at_home_ends_its_castling_right() {
    let mut gs = castling_position();
    assert_eq!(gs.move_piece_legally(0, 56), Ok(()));
    assert_eq!(gs.board.piece_at_position(56), Some(WHITE_ROOK));
    assert_eq!(gs.board.black_rooks, 1 << 63);
    let rights = gs.board.castling_rights;
    assert!(rights.white_king_side && !rights.white_queen_side);
    assert!(rights.black_king_side && !rights.black_queen_side);
}

#[test]
fn a_pawn_move_keeps_the_castling_rights() {
    let mut gs = GameState::new();
    assert_eq!(gs.move_piece_legally(12, 20), Ok(()));
    let rights = gs.board.castling_rights;
    assert!(rights.white_king_side && rights.white_queen_side);
    assert!(rights.black_king_side && rights.black_queen_side);
    assert_eq!(gs.board.en_passant, None);
}

#[test]
fn the_initial_position_is_as_in_chess() {
    let board = Chessboard::new();
    assert_eq!(board.one_side_pieces(true), 0xffff);
    assert_eq!(board.one_side_pieces(false), 0xffff << 48);
    assert_eq!(board.both_side_pieces(), 0xffff | (0xffff << 48));
    assert_eq!(board.piece_at_position(4), Some(Piece { kind: PieceKind::King, white: true }));
    assert_eq!(board.piece_at_position(59), Some(Piece { kind: PieceKind::Queen, white: false }));
    assert_eq!(board.piece_at_position(48), Some(BLACK_PAWN));
    assert_eq!(board.piece_at_position(64), None);
    assert!(board.white_turn);
    assert_eq!(board.en_passant, None);
}

#[test]
fn squares_are_set_and_cleared_one_by_one() {
    let mut board = Chessboard::empty();
    board.put(WHITE_ROOK, 27);
    board.put(BLACK_PAWN, 28);
    assert_eq!(board.white_rooks, 1 << 27);
    assert_eq!(board.mask(BLACK_PAWN), 1 << 28);
    board.clear_square(27);
    assert_eq!(board.piece_at_position(27), None);
    assert_eq!(board.piece_at_position(28), Some(BLACK_PAWN));
    board.set_mask(WHITE_PAWN, 0xff00);
    assert_eq!(board.white_pawns, 0xff00);
    board.clear();
    assert_eq!(board, Chessboard::empty());
}

#[test]
fn the_material_balance_counts_for_white() {
    assert_eq!(Chessboard::new().evaluate(), 0);
    assert_eq!(Chessboard::empty().evaluate(), 0);
    let mut board = Chessboard::new();
    board.black_queen = 0;
    assert_eq!(board.evaluate(), 9);
    board.white_rooks = 1;
    board.white_pawns = 0;
    assert_eq!(board.evaluate(), 9 - 5 - 8);
    let mut minor = Chessboard::empty();
    minor.white_knights = 1 << 10;
    minor.black_bishops = (1 << 20) | (1 << 21);
    minor.black_king = 1 << 60;
    assert_eq!(minor.evaluate(), -3);
}

#[test]
fn move_errors_have_messages() {
    assert_eq!(MoveError::NoPieceAtSource.message(), "there is no piece on the origin square");
    assert_eq!(
        MoveError::WrongSideToMove.message(),
        "the piece on the origin square is not to move"
    );
    assert_eq!(MoveError::IllegalTarget.message(), "the piece cannot go to the destination square");
}
