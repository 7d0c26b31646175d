//! The position: twelve occupancy masks, one for each kind of piece of each
//! side, with the side to move, the castling rights and the en-passant
//! square.

use vstd::prelude::*;
use crate::bitboard::{
    has_bit, lemma_bit_of_empty, lemma_bit_of_union, test_bit, with_bit, without_bit,
};
use crate::piece::{Piece, PieceKind};

verus! {

/// The four castling rights, each granted or not on its own.
#[derive(Clone, Copy, Debug, PartialEq, Eq, Structural)]
pub struct CastlingRights {
    pub white_king_side: bool,
    pub white_queen_side: bool,
    pub black_king_side: bool,
    pub black_queen_side: bool,
}

/// A chess position.
///
/// Bit `i` of a mask says that square `i` holds a piece of that mask's kind
/// and side. In a well-formed position no square is in two masks.
#[derive(Clone, Copy, Debug, PartialEq, Eq)]
pub struct Chessboard {
    pub white_pawns: u64,
    pub white_rooks: u64,
    pub white_knights: u64,
    pub white_bishops: u64,
    pub white_queen: u64,
    pub white_king: u64,
    pub black_pawns: u64,
    pub black_rooks: u64,
    pub black_knights: u64,
    pub black_bishops: u64,
    pub black_queen: u64,
    pub black_king: u64,
    /// Whether White is to move.
    pub white_turn: bool,
    pub castling_rights: CastlingRights,
    /// The square that a pawn passed over on the ply before, if it made a
    /// double step.
    pub en_passant: Option<u8>,
}

impl Chessboard {
    /// The mask of one kind of piece of one side.
    pub open spec fn mask_of(&self, piece: Piece) -> u64 {
        match (piece.kind, piece.white) {
            (PieceKind::Pawn, true) => self.white_pawns,
            (PieceKind::Rook, true) => self.white_rooks,
            (PieceKind::Knight, true) => self.white_knights,
            (PieceKind::Bishop, true) => self.white_bishops,
            (PieceKind::Queen, true) => self.white_queen,
            (PieceKind::King, true) => self.white_king,
            (PieceKind::Pawn, false) => self.black_pawns,
            (PieceKind::Rook, false) => self.black_rooks,
            (PieceKind::Knight, false) => self.black_knights,
            (PieceKind::Bishop, false) => self.black_bishops,
            (PieceKind::Queen, false) => self.black_queen,
            (PieceKind::King, false) => self.black_king,
        }
    }

    /// Whether `square` holds `piece`.
    pub open spec fn holds(&self, piece: Piece, square: u8) -> bool {
        has_bit(self.mask_of(piece), square)
    }

    /// All squares that hold a piece of one side.
    pub open spec fn side_mask(&self, white: bool) -> u64 {
        if white {
            self.white_pawns | self.white_rooks | self.white_knights | self.white_bishops
                | self.white_queen | self.white_king
        } else {
            self.black_pawns | self.black_rooks | self.black_knights | self.black_bishops
                | self.black_queen | self.black_king
        }
    }

    /// All squares that hold a piece.
    pub open spec fn all_mask(&self) -> u64 {
        self.side_mask(true) | self.side_mask(false)
    }

    /// The piece on `square`, if there is one. Where masks overlap, which a
    /// well-formed position excludes, the first in a fixed order counts.
    pub open spec fn piece_on(&self, square: u8) -> Option<Piece> {
        if has_bit(self.white_pawns, square) {
            Some(Piece { kind: PieceKind::Pawn, white: true })
        } else if has_bit(self.white_rooks, square) {
            Some(Piece { kind: PieceKind::Rook, white: true })
        } else if has_bit(self.white_knights, square) {
            Some(Piece { kind: PieceKind::Knight, white: true })
        } else if has_bit(self.white_bishops, square) {
            Some(Piece { kind: PieceKind::Bishop, white: true })
        } else if has_bit(self.white_queen, square) {
            Some(Piece { kind: PieceKind::Queen, white: true })
        } else if has_bit(self.white_king, square) {
            Some(Piece { kind: PieceKind::King, white: true })
        } else if has_bit(self.black_pawns, square) {
            Some(Piece { kind: PieceKind::Pawn, white: false })
        } else if has_bit(self.black_rooks, square) {
            Some(Piece { kind: PieceKind::Rook, white: false })
        } else if has_bit(self.black_knights, square) {
            Some(Piece { kind: PieceKind::Knight, white: false })
        } else if has_bit(self.black_bishops, square) {
            Some(Piece { kind: PieceKind::Bishop, white: false })
        } else if has_bit(self.black_queen, square) {
            Some(Piece { kind: PieceKind::Queen, white: false })
        } else if has_bit(self.black_king, square) {
            Some(Piece { kind: PieceKind::King, white: false })
        } else {
            None
        }
    }

    /// The piece on the square of the given rank and file, both counted from
    /// 0.
    pub open spec fn piece_at(&self, rank: int, file: int) -> Option<Piece> {
        self.piece_on((8 * rank + file) as u8)
    }

    /// The material balance over the squares below `squares`: the sum of the
    /// worth of each piece on them, counted for White and against Black.
    pub open spec fn material(&self, squares: int) -> int
        decreases squares,
    {
        if squares <= 0 {
            0
        } else {
            self.material(squares - 1) + match self.piece_on((squares - 1) as u8) {
                Some(piece) => if piece.white {
                    worth_of(piece.kind)
                } else {
                    -worth_of(piece.kind)
                },
                None => 0,
            }
        }
    }

    /// No square holds two pieces.
    pub open spec fn no_overlap(&self) -> bool {
        forall|p: Piece, q: Piece, s: u8|
            #![trigger self.holds(p, s), self.holds(q, s)]
            self.holds(p, s) && self.holds(q, s) ==> p == q
    }

    /// No square holds two pieces, and the en-passant square, if set, is on
    /// the board.
    pub open spec fn well_formed(&self) -> bool {
        &&& self.no_overlap()
        &&& self.en_passant matches Some(s) ==> s < 64
    }

    /// Whether both positions have the same side to move, castling rights
    /// and en-passant square.
    pub open spec fn same_state(&self, other: &Chessboard) -> bool {
        &&& self.white_turn == other.white_turn
        &&& self.castling_rights == other.castling_rights
        &&& self.en_passant == other.en_passant
    }

    /// The position with no piece on it: White to move, no castling right,
    /// no en-passant square.
    pub open spec fn spec_empty() -> Chessboard {
        Chessboard {
            white_pawns: 0,
            white_rooks: 0,
            white_knights: 0,
            white_bishops: 0,
            white_queen: 0,
            white_king: 0,
            black_pawns: 0,
            black_rooks: 0,
            black_knights: 0,
            black_bishops: 0,
            black_queen: 0,
            black_king: 0,
            white_turn: true,
            castling_rights: CastlingRights {
                white_king_side: false,
                white_queen_side: false,
                black_king_side: false,
                black_queen_side: false,
            },
            en_passant: None,
        }
    }

    /// The position at the start of a game.
    pub open spec fn spec_initial() -> Chessboard {
        Chessboard {
            white_pawns: 0x0000_0000_0000_ff00,
            white_rooks: 0x0000_0000_0000_0081,
            white_knights: 0x0000_0000_0000_0042,
            white_bishops: 0x0000_0000_0000_0024,
            white_queen: 0x0000_0000_0000_0008,
            white_king: 0x0000_0000_0000_0010,
            black_pawns: 0x00ff_0000_0000_0000,
            black_rooks: 0x8100_0000_0000_0000,
            black_knights: 0x4200_0000_0000_0000,
            black_bishops: 0x2400_0000_0000_0000,
            black_queen: 0x0800_0000_0000_0000,
            black_king: 0x1000_0000_0000_0000,
            white_turn: true,
            castling_rights: CastlingRights {
                white_king_side: true,
                white_queen_side: true,
                black_king_side: true,
                black_queen_side: true,
            },
            en_passant: None,
        }
    }

    /// The piece that stands on `square` at the start of a game.
    pub open spec fn initial_piece(square: u8) -> Option<Piece> {
        let back = |file: int|
            if file == 0 || file == 7 {
                PieceKind::Rook
            } else if file == 1 || file == 6 {
                PieceKind::Knight
            } else if file == 2 || file == 5 {
                PieceKind::Bishop
            } else if file == 3 {
                PieceKind::Queen
            } else {
                PieceKind::King
            };
        if square < 8 {
            Some(Piece { kind: back(square as int), white: true })
        } else if square < 16 {
            Some(Piece { kind: PieceKind::Pawn, white: true })
        } else if square < 48 {
            None
        } else if square < 56 {
            Some(Piece { kind: PieceKind::Pawn, white: false })
        } else if square < 64 {
            Some(Piece { kind: back(square - 56), white: false })
        } else {
            None
        }
    }

    /// An empty position.
    pub fn empty() -> (board: Chessboard)
        ensures
            board == Chessboard::spec_empty(),
            board.well_formed(),
            forall|p: Piece, s: u8| !board.holds(p, s),
    {
        let board = Chessboard {
            white_pawns: 0,
            white_rooks: 0,
            white_knights: 0,
            white_bishops: 0,
            white_queen: 0,
            white_king: 0,
            black_pawns: 0,
            black_rooks: 0,
            black_knights: 0,
            black_bishops: 0,
            black_queen: 0,
            black_king: 0,
            white_turn: true,
            castling_rights: CastlingRights {
                white_king_side: false,
                white_queen_side: false,
                black_king_side: false,
                black_queen_side: false,
            },
            en_passant: None,
        };
        proof {
            assert forall|p: Piece, s: u8| !board.holds(p, s) by {
                lemma_bit_of_empty(s);
            }
        }
        board
    }

    /// The position at the start of a game.
    pub fn new() -> (board: Chessboard)
        ensures
            board == Chessboard::spec_initial(),
            board.well_formed(),
            forall|p: Piece, s: u8|
                board.holds(p, s) <==> Chessboard::initial_piece(s) == Some(p),
    {
        let board = Chessboard {
            white_pawns: 0x0000_0000_0000_ff00,
            white_rooks: 0x0000_0000_0000_0081,
            white_knights: 0x0000_0000_0000_0042,
            white_bishops: 0x0000_0000_0000_0024,
            white_queen: 0x0000_0000_0000_0008,
            white_king: 0x0000_0000_0000_0010,
            black_pawns: 0x00ff_0000_0000_0000,
            black_rooks: 0x8100_0000_0000_0000,
            black_knights: 0x4200_0000_0000_0000,
            black_bishops: 0x2400_0000_0000_0000,
            black_queen: 0x0800_0000_0000_0000,
            black_king: 0x1000_0000_0000_0000,
            white_turn: true,
            castling_rights: CastlingRights {
                white_king_side: true,
                white_queen_side: true,
                black_king_side: true,
                black_queen_side: true,
            },
            en_passant: None,
        };
        proof {
            assert forall|p: Piece, s: u8|
                board.holds(p, s) <==> Chessboard::initial_piece(s) == Some(p) by {
                lemma_initial_masks(s);
            }
        }
        board
    }

    /// Removes every piece. The side to move, the castling rights and the
    /// en-passant square stay.
    pub fn clear(&mut self)
        ensures
            forall|p: Piece, s: u8| !final(self).holds(p, s),
            forall|p: Piece| final(self).mask_of(p) == 0,
            final(self).no_overlap(),
            final(self).same_state(old(self)),
    {
        self.white_pawns = 0;
        self.white_rooks = 0;
        self.white_knights = 0;
        self.white_bishops = 0;
        self.white_queen = 0;
        self.white_king = 0;
        self.black_pawns = 0;
        self.black_rooks = 0;
        self.black_knights = 0;
        self.black_bishops = 0;
        self.black_queen = 0;
        self.black_king = 0;
        proof {
            assert forall|p: Piece, s: u8| !self.holds(p, s) by {
                lemma_bit_of_empty(s);
            }
        }
    }

    /// The mask of `piece`.
    pub fn mask(&self, piece: Piece) -> (m: u64)
        ensures
            m == self.mask_of(piece),
    {
        match (piece.kind, piece.white) {
            (PieceKind::Pawn, true) => self.white_pawns,
            (PieceKind::Rook, true) => self.white_rooks,
            (PieceKind::Knight, true) => self.white_knights,
            (PieceKind::Bishop, true) => self.white_bishops,
            (PieceKind::Queen, true) => self.white_queen,
            (PieceKind::King, true) => self.white_king,
            (PieceKind::Pawn, false) => self.black_pawns,
            (PieceKind::Rook, false) => self.black_rooks,
            (PieceKind::Knight, false) => self.black_knights,
            (PieceKind::Bishop, false) => self.black_bishops,
            (PieceKind::Queen, false) => self.black_queen,
            (PieceKind::King, false) => self.black_king,
        }
    }

    /// Replaces the mask of `piece` and nothing else.
    pub fn set_mask(&mut self, piece: Piece, mask: u64)
        ensures
            final(self).mask_of(piece) == mask,
            forall|q: Piece| q != piece ==> final(self).mask_of(q) == old(self).mask_of(q),
            final(self).same_state(old(self)),
    {
        match (piece.kind, piece.white) {
            (PieceKind::Pawn, true) => { self.white_pawns = mask; },
            (PieceKind::Rook, true) => { self.white_rooks = mask; },
            (PieceKind::Knight, true) => { self.white_knights = mask; },
            (PieceKind::Bishop, true) => { self.white_bishops = mask; },
            (PieceKind::Queen, true) => { self.white_queen = mask; },
            (PieceKind::King, true) => { self.white_king = mask; },
            (PieceKind::Pawn, false) => { self.black_pawns = mask; },
            (PieceKind::Rook, false) => { self.black_rooks = mask; },
            (PieceKind::Knight, false) => { self.black_knights = mask; },
            (PieceKind::Bishop, false) => { self.black_bishops = mask; },
            (PieceKind::Queen, false) => { self.black_queen = mask; },
            (PieceKind::King, false) => { self.black_king = mask; },
        }
    }

    /// Puts `piece` on `square` and changes nothing else. What was on the
    /// square stays in its own mask: call `clear_square` first to replace it.
    pub fn put(&mut self, piece: Piece, square: u8)
        requires
            square < 64,
        ensures
            forall|q: Piece, s: u8|
                final(self).holds(q, s) == (old(self).holds(q, s) || (q == piece && s == square)),
            old(self).no_overlap() && old(self).piece_on(square) is None
                ==> final(self).no_overlap(),
            final(self).same_state(old(self)),
    {
        proof {
            self.lemma_piece_on(square);
        }
        let mask = with_bit(self.mask(piece), square);
        self.set_mask(piece, mask);
        proof {
            if old(self).no_overlap() && old(self).piece_on(square) is None {
                assert forall|p: Piece, q: Piece, s: u8|
                    self.holds(p, s) && self.holds(q, s) implies p == q by {
                    assert(old(self).holds(p, s) || (p == piece && s == square));
                    assert(old(self).holds(q, s) || (q == piece && s == square));
                }
            }
        }
    }

    /// Empties `square`: removes it from all twelve masks and changes nothing
    /// else.
    pub fn clear_square(&mut self, square: u8)
        requires
            square < 64,
        ensures
            forall|q: Piece, s: u8|
                final(self).holds(q, s) == (s != square && old(self).holds(q, s)),
            old(self).no_overlap() ==> final(self).no_overlap(),
            final(self).same_state(old(self)),
    {
        self.white_pawns = without_bit(self.white_pawns, square);
        self.white_rooks = without_bit(self.white_rooks, square);
        self.white_knights = without_bit(self.white_knights, square);
        self.white_bishops = without_bit(self.white_bishops, square);
        self.white_queen = without_bit(self.white_queen, square);
        self.white_king = without_bit(self.white_king, square);
        self.black_pawns = without_bit(self.black_pawns, square);
        self.black_rooks = without_bit(self.black_rooks, square);
        self.black_knights = without_bit(self.black_knights, square);
        self.black_bishops = without_bit(self.black_bishops, square);
        self.black_queen = without_bit(self.black_queen, square);
        self.black_king = without_bit(self.black_king, square);
        proof {
            if old(self).no_overlap() {
                assert forall|p: Piece, q: Piece, s: u8|
                    self.holds(p, s) && self.holds(q, s) implies p == q by {
                    assert(old(self).holds(p, s) && old(self).holds(q, s));
                }
            }
        }
    }

    /// The piece on `square`, or `None` where the square is empty or off the
    /// board.
    pub fn piece_at_position(&self, square: u8) -> (found: Option<Piece>)
        ensures
            found == self.piece_on(square),
            found matches Some(p) ==> self.holds(p, square) && square < 64,
            found is None <==> forall|p: Piece| !self.holds(p, square),
            self.well_formed() ==> forall|p: Piece| self.holds(p, square) <==> found == Some(p),
    {
        proof {
            self.lemma_piece_on(square);
        }
        if test_bit(self.white_pawns, square) {
            Some(Piece { kind: PieceKind::Pawn, white: true })
        } else if test_bit(self.white_rooks, square) {
            Some(Piece { kind: PieceKind::Rook, white: true })
        } else if test_bit(self.white_knights, square) {
            Some(Piece { kind: PieceKind::Knight, white: true })
        } else if test_bit(self.white_bishops, square) {
            Some(Piece { kind: PieceKind::Bishop, white: true })
        } else if test_bit(self.white_queen, square) {
            Some(Piece { kind: PieceKind::Queen, white: true })
        } else if test_bit(self.white_king, square) {
            Some(Piece { kind: PieceKind::King, white: true })
        } else if test_bit(self.black_pawns, square) {
            Some(Piece { kind: PieceKind::Pawn, white: false })
        } else if test_bit(self.black_rooks, square) {
            Some(Piece { kind: PieceKind::Rook, white: false })
        } else if test_bit(self.black_knights, square) {
            Some(Piece { kind: PieceKind::Knight, white: false })
        } else if test_bit(self.black_bishops, square) {
            Some(Piece { kind: PieceKind::Bishop, white: false })
        } else if test_bit(self.black_queen, square) {
            Some(Piece { kind: PieceKind::Queen, white: false })
        } else if test_bit(self.black_king, square) {
            Some(Piece { kind: PieceKind::King, white: false })
        } else {
            None
        }
    }

    /// The squares that hold a piece of one side.
    pub fn one_side_pieces(&self, white: bool) -> (mask: u64)
        ensures
            mask == self.side_mask(white),
            forall|s: u8|
                has_bit(mask, s) <==> exists|k: PieceKind|
                    self.holds(Piece { kind: k, white }, s),
    {
        proof {
            assert forall|s: u8|
                has_bit(self.side_mask(white), s) <==> exists|k: PieceKind|
                    self.holds(Piece { kind: k, white }, s) by {
                self.lemma_side_mask(white, s);
            }
        }
        if white {
            self.white_pawns | self.white_rooks | self.white_knights | self.white_bishops
                | self.white_queen | self.white_king
        } else {
            self.black_pawns | self.black_rooks | self.black_knights | self.black_bishops
                | self.black_queen | self.black_king
        }
    }

    /// The squares that hold a piece of either side.
    pub fn both_side_pieces(&self) -> (mask: u64)
        ensures
            mask == self.all_mask(),
            forall|s: u8| has_bit(mask, s) <==> self.piece_on(s) is Some,
    {
        proof {
            assert forall|s: u8| has_bit(self.all_mask(), s) <==> self.piece_on(s) is Some by {
                self.lemma_all_mask(s);
            }
        }
        self.one_side_pieces(true) | self.one_side_pieces(false)
    }

    /// The material balance of the position: the worth of White's pieces less
    /// the worth of Black's. A positive balance is in White's favour.
    pub fn evaluate(&self) -> (balance: i32)
        ensures
            balance == self.material(64),
    {
        let mut balance: i32 = 0;
        let mut square: u8 = 0;
        while square < 64
            invariant
                square <= 64,
                balance == self.material(square as int),
                -9 * square <= balance <= 9 * square,
            decreases 64 - square,
        {
            match self.piece_at_position(square) {
                Some(piece) => {
                    let worth = piece_worth(piece.kind);
                    balance = if piece.white {
                        balance + worth
                    } else {
                        balance - worth
                    };
                },
                None => {},
            }
            square = square + 1;
        }
        balance
    }

    /// What `piece_on` finds is on the square; it finds nothing only where no
    /// piece is; and in a well-formed position it finds the one piece there.
    pub proof fn lemma_piece_on(&self, square: u8)
        ensures
            self.piece_on(square) matches Some(p) ==> self.holds(p, square) && square < 64,
            self.piece_on(square) is None <==> forall|p: Piece| !self.holds(p, square),
            self.well_formed() ==> forall|p: Piece|
                self.holds(p, square) <==> self.piece_on(square) == Some(p),
    {
        if self.piece_on(square) is Some {
            let p = self.piece_on(square).unwrap();
            assert(self.holds(p, square));
        }
    }

    /// A square belongs to a side exactly when it holds one of that side's
    /// six kinds of piece.
    pub proof fn lemma_side_mask(&self, white: bool, s: u8)
        ensures
            has_bit(self.side_mask(white), s) <==> exists|k: PieceKind|
                self.holds(Piece { kind: k, white }, s),
    {
        let pawns = self.mask_of(Piece { kind: PieceKind::Pawn, white });
        let rooks = self.mask_of(Piece { kind: PieceKind::Rook, white });
        let knights = self.mask_of(Piece { kind: PieceKind::Knight, white });
        let bishops = self.mask_of(Piece { kind: PieceKind::Bishop, white });
        let queen = self.mask_of(Piece { kind: PieceKind::Queen, white });
        let king = self.mask_of(Piece { kind: PieceKind::King, white });
        lemma_bit_of_union(pawns, rooks, s);
        lemma_bit_of_union(pawns | rooks, knights, s);
        lemma_bit_of_union(pawns | rooks | knights, bishops, s);
        lemma_bit_of_union(pawns | rooks | knights | bishops, queen, s);
        lemma_bit_of_union(pawns | rooks | knights | bishops | queen, king, s);
        if has_bit(self.side_mask(white), s) {
            let k = if has_bit(pawns, s) {
                PieceKind::Pawn
            } else if has_bit(rooks, s) {
                PieceKind::Rook
            } else if has_bit(knights, s) {
                PieceKind::Knight
            } else if has_bit(bishops, s) {
                PieceKind::Bishop
            } else if has_bit(queen, s) {
                PieceKind::Queen
            } else {
                PieceKind::King
            };
            assert(self.holds(Piece { kind: k, white }, s));
        }
    }

    /// A square is occupied exactly when it holds a piece.
    pub proof fn lemma_all_mask(&self, s: u8)
        ensures
            has_bit(self.all_mask(), s) <==> self.piece_on(s) is Some,
            has_bit(self.all_mask(), s) <==> has_bit(self.side_mask(true), s) || has_bit(
                self.side_mask(false),
                s,
            ),
    {
        lemma_bit_of_union(self.side_mask(true), self.side_mask(false), s);
        self.lemma_side_mask(true, s);
        self.lemma_side_mask(false, s);
        self.lemma_piece_on(s);
    }
}

/// The worth of a piece in pawns. The king, which is never captured, counts
/// for nothing.
pub open spec fn worth_of(kind: PieceKind) -> int {
    match kind {
        PieceKind::Pawn => 1,
        PieceKind::Knight => 3,
        PieceKind::Bishop => 3,
        PieceKind::Rook => 5,
        PieceKind::Queen => 9,
        PieceKind::King => 0,
    }
}

/// The worth of a piece in pawns.
pub fn piece_worth(kind: PieceKind) -> (worth: i32)
    ensures
        worth == worth_of(kind),
{
    match kind {
        PieceKind::Pawn => 1,
        PieceKind::Knight => 3,
        PieceKind::Bishop => 3,
        PieceKind::Rook => 5,
        PieceKind::Queen => 9,
        PieceKind::King => 0,
    }
}

/// Which squares each mask of the starting position holds.
proof fn lemma_initial_masks(s: u8)
    by (bit_vector)
    ensures
        has_bit(0x0000_0000_0000_ff00u64, s) <==> 8 <= s && s < 16,
        has_bit(0x0000_0000_0000_0081u64, s) <==> s == 0 || s == 7,
        has_bit(0x0000_0000_0000_0042u64, s) <==> s == 1 || s == 6,
        has_bit(0x0000_0000_0000_0024u64, s) <==> s == 2 || s == 5,
        has_bit(0x0000_0000_0000_0008u64, s) <==> s == 3,
        has_bit(0x0000_0000_0000_0010u64, s) <==> s == 4,
        has_bit(0x00ff_0000_0000_0000u64, s) <==> 48 <= s && s < 56,
        has_bit(0x8100_0000_0000_0000u64, s) <==> s == 56 || s == 63,
        has_bit(0x4200_0000_0000_0000u64, s) <==> s == 57 || s == 62,
        has_bit(0x2400_0000_0000_0000u64, s) <==> s == 58 || s == 61,
        has_bit(0x0800_0000_0000_0000u64, s) <==> s == 59,
        has_bit(0x1000_0000_0000_0000u64, s) <==> s == 60,
{
}

} // verus!
