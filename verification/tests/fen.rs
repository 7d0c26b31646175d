use kno3_chess_engine::board::{CastlingRights, Chessboard};
use kno3_chess_engine::error::{ParseError, UnsupportedPieceError};
use kno3_chess_engine::fen_util::{
    check_castling, check_fields, check_passant, check_row, check_turn, get_fen_castles,
    get_fen_passant, get_fen_placement, parse_castling_rights, parse_en_passant,
    parse_whose_turn, pick_fields, place_pieces, split_at_slashes, split_record, unique_chars,
    valid_fen, FenFields,
};
use kno3_chess_engine::piece::{Piece, PieceKind};
use kno3_chess_engine::text::chars_of;
use kno3_chess_engine::GameState;

const START: &str = "rnbqkbnr/pppppppp/8/8/8/8/PPPPPPPP/RNBQKBNR w KQkq - 0 1";

fn no_rights() -> CastlingRights {
    CastlingRights {
        white_king_side: false,
        white_queen_side: false,
        black_king_side: false,
        black_queen_side: false,
    }
}

#[test]
fn the_initial_record_reads_as_the_initial_position() {
    let gs = GameState::from_string(START).unwrap();
    assert_eq!(gs, GameState::new());
    assert_eq!(gs.to_string(), START);
}

#[test]
fn a_record_is_written_as_it_was_read() {
    for record in [
        "rnbqkbnr/pppppppp/8/8/4P3/8/PPPP1PPP/RNBQKBNR b KQkq e3 0 1",
        "r3k2r/8/8/8/8/8/8/R3K2R w Kq - 0 1",
        "8/8/8/8/8/8/8/8 b - - 0 1",
        "1n2k3/p1p1p1p1/8/3Q4/8/2b5/PPPPPPPP/R3K2R w KQ a6 0 1",
        "pppppppp/1p1p1p1p/p1p1p1p1/2pp2pp/pp2pp2/3pp3/p6p/7p b - h8 0 1",
    ] {
        let gs = GameState::from_string(record).unwrap();
        assert_eq!(gs.to_string(), record);
    }
}

#[test]
fn the_counters_are_not_kept() {
    let gs = GameState::from_string("8/8/8/8/8/8/8/8 w - - 12 34").unwrap();
    assert_eq!(gs.to_string(), "8/8/8/8/8/8/8/8 w - - 0 1");
}

#[test]
fn castling_letters_are_written_in_order() {
    let gs = GameState::from_string("r3k2r/8/8/8/8/8/8/R3K2R w qkQK - 0 1").unwrap();
    assert_eq!(gs.to_string(), "r3k2r/8/8/8/8/8/8/R3K2R w KQkq - 0 1");
    let gs = GameState::from_fields("8/8/8/8/8/8/8/8", "b", "qK", "e6").unwrap();
    assert_eq!(gs.to_string(), "8/8/8/8/8/8/8/8 b Kq e6 0 1");
}

#[test]
fn a_record_with_seven_ranks_is_refused() {
    let record = "rnbqkbnr/pppppppp/8/8/8/8/PPPPPPPP w KQkq - 0 1";
    assert!(!valid_fen(record));
    assert_eq!(GameState::from_string(record), Err(ParseError::BadFormat));
    let record = "rnbqkbnr/pppppppp/8/8/8/8/8/PPPPPPPP/RNBQKBNR w KQkq - 0 1";
    assert!(!valid_fen(record));
    assert_eq!(GameState::from_string(record), Err(ParseError::BadFormat));
}

#[test]
fn a_record_with_a_castling_letter_twice_is_refused() {
    let record = "rnbqkbnr/pppppppp/8/8/8/8/PPPPPPPP/RNBQKBNR w KK - 0 1";
    assert!(!valid_fen(record));
    assert_eq!(GameState::from_string(record), Err(ParseError::DuplicateCastling));
}

#[test]
fn a_rank_that_is_not_eight_files_wide_is_refused() {
    for record in [
        "rnbqkbnr/pppppppp/7/8/8/8/PPPPPPPP/RNBQKBNR w KQkq - 0 1",
        "rnbqkbnr/pppppppp/8/8/8/8/PPPPPPPPP/RNBQKBNR w KQkq - 0 1",
        "rnbqkbnr/pppppppp/44/8/8/8/PPPPPPPP/RNBQKBNR w KQkq - 0 1",
        "rnbqkbnr/pppppppp/8/8/8/8/PPPPPPPP/RNBQKBN w KQkq - 0 1",
    ] {
        assert!(!valid_fen(record));
        assert_eq!(GameState::from_string(record), Err(ParseError::BadRank));
    }
}

#[test]
fn a_text_that_is_no_record_is_refused() {
    for record in [
        "",
        "hello",
        "rnbqkbnr/pppppppp/8/8/8/8/PPPPPPPP/RNBQKBNR",
        "rnbqkbnr/pppppppp/8/8/8/8/PPPPPPPP/RNBQKBNR w KQkq - 0",
        "rnbqkbnr/pppppppp/8/8/8/8/PPPPPPPP/RNBQKBNR x KQkq - 0 1",
        "rnbqkbnr/pppppppp/8/8/8/8/PPPPPPPP/RNBQKBNR w KQkqK - 0 1",
        "rnbqkbnr/pppppppp/8/8/8/8/PPPPPPPP/RNBQKBNR w KQkq e9 0 1",
        "rnbqkbnr/pppppppp/8/8/8/8/PPPPPPPP/RNBQKBNR w KQkq E3 0 1",
        "rnbqkbnr/pppppppp/9/8/8/8/PPPPPPPP/RNBQKBNR w KQkq - 0 1",
        "rnbqkbnr/pppppppp/8/8/8/8/PPPPPPPP/RNBQKBNX w KQkq - 0 1",
        "rnbqkbnr/pppppppp/8/8/8/8/PPPPPPPP/RNBQKBNR  w KQkq - 0 1",
        "rnbqkbnr/pppppppp/8/8/8/8/PPPPPPPP/RNBQKBNR w KQkq - 0 1 ",
        " rnbqkbnr/pppppppp/8/8/8/8/PPPPPPPP/RNBQKBNR w KQkq - 0 1",
    ] {
        assert!(!valid_fen(record), "{}", record);
        assert_eq!(GameState::from_string(record), Err(ParseError::BadFormat));
    }
}

#[test]
fn a_valid_record_is_accepted() {
    assert!(valid_fen(START));
    assert!(valid_fen("rnbqkbnr/pppppppp/8/8/8/8/PPPPPPPP/RNBQKBNR\tb\tKq\th6\t10\t200"));
    assert!(valid_fen("8/8/8/8/8/8/8/8 w - - 0 1"));
}

#[test]
fn a_record_is_split_into_its_fields() {
    let fields = split_record("r3k2r/8/8/8/8/8/8/R3K2R b Kq c6 7 30").unwrap();
    assert_eq!(
        fields,
        FenFields {
            placement: "r3k2r/8/8/8/8/8/8/R3K2R".to_string(),
            turn: "b".to_string(),
            castling: "Kq".to_string(),
            en_passant: "c6".to_string(),
        }
    );
    assert_eq!(split_record("r3k2r/8/8/8/8/8/8/R3K2R b Kq c6 7"), None);
}

#[test]
fn fields_are_picked_from_seven_groups() {
    let group = |text: &str| Some(text.to_string());
    let groups = vec![group("all"), group("p"), None, group("t"), group("c"), group("e"), None];
    assert_eq!(
        pick_fields(Some(groups)),
        Some(FenFields {
            placement: "p".to_string(),
            turn: "t".to_string(),
            castling: "c".to_string(),
            en_passant: "e".to_string(),
        })
    );
    assert_eq!(pick_fields(None), None);
    assert_eq!(pick_fields(Some(vec![])), None);
    assert_eq!(pick_fields(Some(vec![group("a"), group("b"), group("c")])), None);
    let missing = vec![group("all"), None, None, group("t"), group("c"), group("e"), None];
    assert_eq!(pick_fields(Some(missing)), None);
    let eight = vec![group("x"); 8];
    assert_eq!(pick_fields(Some(eight)), None);
}

#[test]
fn fields_are_checked_in_order() {
    let empty = "8/8/8/8/8/8/8/8";
    assert_eq!(check_fields(empty, "w", "KQkq", "-"), Ok(()));
    assert_eq!(check_fields(empty, "b", "-", "e3"), Ok(()));
    assert_eq!(check_fields(empty, "b", "qK", "h6"), Ok(()));
    assert_eq!(check_fields("8/8/8/8/8/8/8", "w", "KQkq", "-"), Err(ParseError::RankCount));
    assert_eq!(check_fields("8/8/8/8/8/8/8/8/8", "x", "KK", "z"), Err(ParseError::RankCount));
    assert_eq!(check_fields("", "w", "-", "-"), Err(ParseError::RankCount));
    assert_eq!(check_fields("8/8/8/8/8/8/8/7", "x", "KK", "z"), Err(ParseError::BadRank));
    assert_eq!(check_fields("8/8/8/8/x7/8/8/8", "w", "-", "-"), Err(ParseError::BadRank));
    assert_eq!(check_fields("8/8/8/8/8/8/8/", "w", "-", "-"), Err(ParseError::BadRank));
    assert_eq!(check_fields(empty, "x", "K|Q", "z"), Err(ParseError::BadTurn));
    assert_eq!(check_fields(empty, "w", "K|Q", "z"), Err(ParseError::BadCastling));
    assert_eq!(check_fields(empty, "w", "KQkK", "z"), Err(ParseError::DuplicateCastling));
    assert_eq!(check_fields(empty, "w", "KQkq", "z"), Err(ParseError::BadEnPassant));
}

#[test]
fn a_castling_field_holds_only_castling_letters() {
    let record = "rnbqkbnr/pppppppp/8/8/8/8/PPPPPPPP/RNBQKBNR w K|Q - 0 1";
    assert!(!valid_fen(record));
    assert_eq!(GameState::from_string(record), Err(ParseError::BadFormat));
    let placement = "rnbqkbnr/pppppppp/8/8/8/8/PPPPPPPP/RNBQKBNR";
    for castling in ["K|Q", "|", "", "--", "K-", "-K", "x", "KQkqK", "KQkq ", "kqa", "KQKQK"] {
        assert_eq!(check_fields(placement, "w", castling, "-"), Err(ParseError::BadCastling));
        assert_eq!(
            GameState::from_fields(placement, "w", castling, "-"),
            Err(ParseError::BadCastling)
        );
        assert!(!check_castling(castling));
    }
    for castling in ["-", "K", "q", "Kq", "qK", "kqKQ", "KQkq", "KK", "qqqq"] {
        assert!(check_castling(castling));
    }
    assert_eq!(check_fields(placement, "w", "qqqq", "-"), Err(ParseError::DuplicateCastling));
}

#[test]
fn the_side_to_move_is_w_or_b() {
    let record = "rnbqkbnr/pppppppp/8/8/8/8/PPPPPPPP/RNBQKBNR | KQkq - 0 1";
    assert!(!valid_fen(record));
    assert_eq!(GameState::from_string(record), Err(ParseError::BadFormat));
    let placement = "rnbqkbnr/pppppppp/8/8/8/8/PPPPPPPP/RNBQKBNR";
    for turn in ["|", "", "W", "B", "x", "wb", "w ", "white", "-"] {
        assert!(!check_turn(turn));
        assert_eq!(
            GameState::from_fields(placement, turn, "KQkq", "-"),
            Err(ParseError::BadTurn)
        );
    }
    assert!(check_turn("w"));
    assert!(check_turn("b"));
    let black = GameState::from_fields(placement, "b", "KQkq", "-").unwrap();
    assert!(!black.board.white_turn);
    let white = GameState::from_fields(placement, "w", "KQkq", "-").unwrap();
    assert!(white.board.white_turn);
}

#[test]
fn the_en_passant_field_is_a_dash_or_a_square() {
    let placement = "8/8/8/8/8/8/8/8";
    for field in ["", "e", "E3", "e9", "e0", "i3", "3e", "--", "e3 ", "e33", "a1x"] {
        assert!(!check_passant(field));
        assert_eq!(
            GameState::from_fields(placement, "w", "-", field),
            Err(ParseError::BadEnPassant)
        );
    }
    for (field, square) in [("a1", 0u8), ("e3", 20), ("h6", 47), ("h8", 63)] {
        assert!(check_passant(field));
        let gs = GameState::from_fields(placement, "w", "-", field).unwrap();
        assert_eq!(gs.board.en_passant, Some(square));
    }
    assert!(check_passant("-"));
    let gs = GameState::from_fields(placement, "w", "-", "-").unwrap();
    assert_eq!(gs.board.en_passant, None);
}

#[test]
fn fields_are_read_without_a_record() {
    assert_eq!(
        GameState::from_fields("rnbqkbnr/pppppppp/8/8/8/8/PPPPPPPP/RNBQKBNR", "w", "KQkq", "-"),
        Ok(GameState::new())
    );
    assert_eq!(
        GameState::from_fields("8/8/8/8/8/8/8", "w", "-", "-"),
        Err(ParseError::RankCount)
    );
    assert_eq!(
        GameState::from_fields("8/8/8/8/8/8/8/p6", "w", "-", "-"),
        Err(ParseError::BadRank)
    );
    assert_eq!(
        GameState::from_fields("8/8/8/8/8/8/8/8", "w", "qq", "-"),
        Err(ParseError::DuplicateCastling)
    );
}

#[test]
fn a_rank_is_checked_character_by_character() {
    let check = |row: &str| check_row(&chars_of(row));
    assert!(check("8"));
    assert!(check("rnbqkbnr"));
    assert!(check("3P4"));
    assert!(check("p1p1p1p1"));
    assert!(!check(""));
    assert!(!check("7"));
    assert!(!check("9"));
    assert!(!check("08"));
    assert!(!check("44"));
    assert!(!check("4p4"));
    assert!(!check("pppppppx"));
    assert!(!check("p~6"));
    assert!(!check("ppppppppp"));
}

#[test]
fn pieces_are_placed_from_the_last_rank_up() {
    let mut board = Chessboard::new();
    place_pieces(&mut board, "8/8/8/8/8/8/8/R6k");
    assert_eq!(board.white_rooks, 1);
    assert_eq!(board.black_king, 1 << 7);
    assert_eq!(board.both_side_pieces(), 1 | (1 << 7));
    assert!(board.white_turn);
    assert!(board.castling_rights.white_king_side);

    let mut board = Chessboard::empty();
    place_pieces(&mut board, "rnbqkbnr/pppppppp/8/8/8/8/PPPPPPPP/RNBQKBNR");
    assert_eq!(board.white_pawns, Chessboard::new().white_pawns);
    assert_eq!(board.black_knights, Chessboard::new().black_knights);
    assert_eq!(board.black_queen, 1 << 59);
    assert_eq!(board.white_king, 1 << 4);
}

#[test]
fn a_placement_is_read_as_it_stands() {
    let mut board = Chessboard::empty();
    place_pieces(&mut board, "2Q/x1n");
    assert_eq!(board.white_queen, 1 << 10);
    assert_eq!(board.black_knights, 1 << 2);
    assert_eq!(board.both_side_pieces(), (1 << 10) | (1 << 2));

    let mut board = Chessboard::empty();
    place_pieces(&mut board, "pppppppp/8/8/8/8/8/8/8/7PK");
    assert_eq!(board.white_pawns, 1 << 7);
    assert_eq!(board.white_king, 0);
    assert_eq!(board.black_pawns, 0);

    let mut board = Chessboard::new();
    place_pieces(&mut board, "");
    assert_eq!(board.both_side_pieces(), 0);
}

#[test]
fn the_placement_is_written_rank_by_rank() {
    assert_eq!(
        get_fen_placement(&Chessboard::new()),
        "rnbqkbnr/pppppppp/8/8/8/8/PPPPPPPP/RNBQKBNR"
    );
    assert_eq!(get_fen_placement(&Chessboard::empty()), "8/8/8/8/8/8/8/8");
    let mut board = Chessboard::empty();
    board.white_queen = 1 << 27;
    board.black_king = 1 << 63;
    board.black_pawns = (1 << 8) | (1 << 10);
    assert_eq!(get_fen_placement(&board), "7k/8/8/8/3Q4/8/p1p5/8");
}

#[test]
fn the_castling_field_lists_the_rights() {
    let mut board = Chessboard::empty();
    assert_eq!(get_fen_castles(&board), "-");
    board.castling_rights.black_queen_side = true;
    assert_eq!(get_fen_castles(&board), "q");
    board.castling_rights.white_king_side = true;
    assert_eq!(get_fen_castles(&board), "Kq");
    assert_eq!(get_fen_castles(&Chessboard::new()), "KQkq");
}

#[test]
fn the_en_passant_field_names_the_square() {
    let mut board = Chessboard::empty();
    assert_eq!(get_fen_passant(&board), "-");
    board.en_passant = Some(20);
    assert_eq!(get_fen_passant(&board), "e3");
    board.en_passant = Some(47);
    assert_eq!(get_fen_passant(&board), "h6");
    board.en_passant = Some(0);
    assert_eq!(get_fen_passant(&board), "a1");
    board.en_passant = Some(64);
    assert_eq!(get_fen_passant(&board), "-");
}

#[test]
fn the_side_to_move_is_white_only_for_w() {
    let mut board = Chessboard::empty();
    parse_whose_turn(&mut board, "b");
    assert!(!board.white_turn);
    parse_whose_turn(&mut board, "w");
    assert!(board.white_turn);
    for other in ["", "W", "ww", "white", "|"] {
        parse_whose_turn(&mut board, other);
        assert!(!board.white_turn);
    }
    assert_eq!(board, Chessboard { white_turn: false, ..Chessboard::empty() });
}

#[test]
fn castling_rights_are_read_letter_by_letter() {
    let mut board = Chessboard::new();
    parse_castling_rights(&mut board, "Kq");
    assert_eq!(
        board.castling_rights,
        CastlingRights { white_king_side: true, black_queen_side: true, ..no_rights() }
    );
    parse_castling_rights(&mut board, "-");
    assert_eq!(board.castling_rights, no_rights());
    parse_castling_rights(&mut board, "x|Qk?");
    assert_eq!(
        board.castling_rights,
        CastlingRights { white_queen_side: true, black_king_side: true, ..no_rights() }
    );
    parse_castling_rights(&mut board, "");
    assert_eq!(board.castling_rights, no_rights());
    assert_eq!(board.white_pawns, 0xff00);
}

#[test]
fn the_en_passant_square_is_read_from_its_name() {
    let mut board = Chessboard::empty();
    parse_en_passant(&mut board, "e3");
    assert_eq!(board.en_passant, Some(20));
    parse_en_passant(&mut board, "-");
    assert_eq!(board.en_passant, None);
    parse_en_passant(&mut board, "H6");
    assert_eq!(board.en_passant, Some(47));
    parse_en_passant(&mut board, "a1x");
    assert_eq!(board.en_passant, Some(0));
    for other in ["", "e", "e9", "e0", "i3", "3e", "--"] {
        board.en_passant = Some(20);
        parse_en_passant(&mut board, other);
        assert_eq!(board.en_passant, None);
    }
}

#[test]
fn no_character_twice() {
    assert!(unique_chars(""));
    assert!(unique_chars("-"));
    assert!(unique_chars("KQkq"));
    assert!(!unique_chars("KK"));
    assert!(!unique_chars("KQkK"));
    assert!(!unique_chars("abca"));
}

#[test]
fn a_text_is_split_at_each_slash() {
    let split = |text: &str| -> Vec<String> {
        split_at_slashes(&chars_of(text)).iter().map(|row| row.iter().collect()).collect()
    };
    assert_eq!(split(""), vec![""]);
    assert_eq!(split("abc"), vec!["abc"]);
    assert_eq!(split("a/b"), vec!["a", "b"]);
    assert_eq!(split("/"), vec!["", ""]);
    assert_eq!(split("8/8//p7/"), vec!["8", "8", "", "p7", ""]);
}

#[test]
fn a_text_is_read_character_by_character() {
    assert_eq!(chars_of("e2:e4"), vec!['e', '2', ':', 'e', '4']);
    assert_eq!(chars_of(""), Vec::<char>::new());
    assert_eq!(chars_of("r3k2r/8").len(), 7);
}

#[test]
fn letters_stand_for_pieces() {
    for (glyph, kind, white) in [
        ('P', PieceKind::Pawn, true),
        ('R', PieceKind::Rook, true),
        ('N', PieceKind::Knight, true),
        ('B', PieceKind::Bishop, true),
        ('Q', PieceKind::Queen, true),
        ('K', PieceKind::King, true),
        ('p', PieceKind::Pawn, false),
        ('r', PieceKind::Rook, false),
        ('n', PieceKind::Knight, false),
        ('b', PieceKind::Bishop, false),
        ('q', PieceKind::Queen, false),
        ('k', PieceKind::King, false),
    ] {
        let piece = Piece { kind, white };
        assert_eq!(piece.glyph(), glyph);
        assert_eq!(Piece::from_glyph(glyph), Ok(piece));
    }
    for glyph in ['x', '1', '/', ' ', '~'] {
        assert_eq!(Piece::from_glyph(glyph), Err(UnsupportedPieceError { glyph }));
    }
    assert_eq!(UnsupportedPieceError { glyph: 'x' }.message(), "no piece has the letter x");
}

#[test]
fn parse_errors_have_messages() {
    assert_eq!(
        ParseError::BadFormat.message(),
        "the record does not have the form of a position"
    );
    assert_eq!(ParseError::RankCount.message(), "the placement does not have eight ranks");
    assert_eq!(
        ParseError::BadRank.message(),
        "a rank of the placement does not describe eight files"
    );
    assert_eq!(ParseError::BadTurn.message(), "the side to move is neither w nor b");
    assert_eq!(
        ParseError::BadCastling.message(),
        "the castling field holds more than letters of KQkq"
    );
    assert_eq!(ParseError::DuplicateCastling.message(), "a castling letter occurs twice");
    assert_eq!(ParseError::BadEnPassant.message(), "the en-passant field names no square");
    assert_eq!(ParseError::BadSquare.message(), "the text is not the name of a square");
}
