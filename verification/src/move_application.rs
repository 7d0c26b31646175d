//! Applying a move: the moved piece leaves its square and takes the
//! destination, what stood there is captured, the turn passes, and the
//! en-passant square and the castling rights are brought up to date.
//!
//! A move is a pair of squares. What kind of move it is follows from the
//! piece on the origin square. No promotion, castling or en-passant capture
//! is carried out, and nothing is checked about the safety of the king.

use vstd::prelude::*;
use crate::bitboard::test_bit;
use crate::board::{CastlingRights, Chessboard};
use crate::error::MoveError;
use crate::game_state::GameState;
use crate::move_generation::piece_moves;
use crate::move_laws::{
    lemma_bishop_moves_on_diagonal, lemma_king_moves_contains, lemma_knight_moves_contains,
    lemma_queen_moves_on_lines, lemma_rook_moves_in_line,
};
use crate::piece::{Piece, PieceKind};

verus! {

/// The home square of White's king.
pub const WHITE_KING_HOME: u8 = 4;

/// The home square of Black's king.
pub const BLACK_KING_HOME: u8 = 60;

/// The home square of White's queen-side rook.
pub const WHITE_QUEEN_ROOK_HOME: u8 = 0;

/// The home square of White's king-side rook.
pub const WHITE_KING_ROOK_HOME: u8 = 7;

/// The home square of Black's queen-side rook.
pub const BLACK_QUEEN_ROOK_HOME: u8 = 56;

/// The home square of Black's king-side rook.
pub const BLACK_KING_ROOK_HOME: u8 = 63;

/// The en-passant square after `piece` has moved from `from` to `to`: the
/// square passed over where a pawn made a double step, and none otherwise.
pub open spec fn en_passant_after(piece: Piece, from: u8, to: u8) -> Option<u8> {
    if piece.kind == PieceKind::Pawn && (to - from == 16 || from - to == 16) {
        Some(((from + to) / 2) as u8)
    } else {
        None
    }
}

/// Whether the move of `piece` from `from` to `to` ends a castling right of
/// side `white` that rests on the rook whose home is `rook_home`: the king of
/// that side leaves its home, the rook leaves its home, or the other side
/// captures a rook on that home.
pub open spec fn revokes(
    before: Chessboard,
    piece: Piece,
    from: u8,
    to: u8,
    white: bool,
    rook_home: u8,
) -> bool {
    let king_home = if white {
        WHITE_KING_HOME
    } else {
        BLACK_KING_HOME
    };
    ||| piece.white == white && piece.kind == PieceKind::King && from == king_home
    ||| piece.white == white && piece.kind == PieceKind::Rook && from == rook_home
    ||| piece.white != white && to == rook_home && before.holds(
        Piece { kind: PieceKind::Rook, white },
        to,
    )
}

/// The castling rights after `piece` has moved from `from` to `to`: each
/// right that was granted stays unless the move revokes it.
pub open spec fn castling_after(before: Chessboard, piece: Piece, from: u8, to: u8)
    -> CastlingRights {
    let rights = before.castling_rights;
    CastlingRights {
        white_king_side: rights.white_king_side && !revokes(
            before,
            piece,
            from,
            to,
            true,
            WHITE_KING_ROOK_HOME,
        ),
        white_queen_side: rights.white_queen_side && !revokes(
            before,
            piece,
            from,
            to,
            true,
            WHITE_QUEEN_ROOK_HOME,
        ),
        black_king_side: rights.black_king_side && !revokes(
            before,
            piece,
            from,
            to,
            false,
            BLACK_KING_ROOK_HOME,
        ),
        black_queen_side: rights.black_queen_side && !revokes(
            before,
            piece,
            from,
            to,
            false,
            BLACK_QUEEN_ROOK_HOME,
        ),
    }
}

/// Whether `after` is the position that the move of `piece` from `from` to
/// `to` makes of `before`.
///
/// The destination holds the moved piece and no other, the origin is empty,
/// and every other square is as it was. The turn has passed to the other
/// side.
pub open spec fn is_position_after(
    before: Chessboard,
    after: Chessboard,
    piece: Piece,
    from: u8,
    to: u8,
) -> bool {
    &&& forall|q: Piece, s: u8|
        #![trigger after.holds(q, s)]
        after.holds(q, s) == if s == to {
            q == piece
        } else if s == from {
            false
        } else {
            before.holds(q, s)
        }
    &&& after.white_turn == !before.white_turn
    &&& after.en_passant == en_passant_after(piece, from, to)
    &&& after.castling_rights == castling_after(before, piece, from, to)
}

/// A pseudo-legal destination is a square of the board other than the origin.
pub proof fn lemma_moves_leave_origin(piece: Piece, from: u8, own: u64, opp: u64, to: u8)
    requires
        piece_moves(piece, from, own, opp).contains(to),
    ensures
        from < 64,
        to < 64,
        to != from,
{
    match piece.kind {
        PieceKind::Pawn => {},
        PieceKind::Rook => {
            lemma_rook_moves_in_line(from, own, opp);
        },
        PieceKind::Bishop => {
            lemma_bishop_moves_on_diagonal(from, own, opp);
        },
        PieceKind::Queen => {
            lemma_queen_moves_on_lines(from, own, opp);
        },
        PieceKind::Knight => {
            lemma_knight_moves_contains(from, own, to);
        },
        PieceKind::King => {
            lemma_king_moves_contains(from, own, to);
        },
    }
}

/// Whether `list` holds `square`.
pub fn contains_square(list: &Vec<u8>, square: u8) -> (found: bool)
    ensures
        found == list@.contains(square),
{
    let mut i: usize = 0;
    while i < list.len()
        invariant
            i <= list.len(),
            forall|j: int| 0 <= j < i ==> list[j] != square,
        decreases list.len() - i,
    {
        if list[i] == square {
            return true;
        }
        i = i + 1;
    }
    false
}

/// Whether the move of `piece` from `from` to `to` ends the castling right of
/// side `white` that rests on the rook whose home is `rook_home`.
fn move_revokes(board: &Chessboard, piece: Piece, from: u8, to: u8, white: bool, rook_home: u8)
    -> (revoked: bool)
    ensures
        revoked == revokes(*board, piece, from, to, white, rook_home),
{
    let king_home = if white {
        WHITE_KING_HOME
    } else {
        BLACK_KING_HOME
    };
    let rook = Piece { kind: PieceKind::Rook, white };
    (piece.white == white && piece.kind == PieceKind::King && from == king_home) || (piece.white
        == white && piece.kind == PieceKind::Rook && from == rook_home) || (piece.white != white
        && to == rook_home && test_bit(board.mask(rook), to))
}

/// The castling rights after `piece` has moved from `from` to `to` on `board`.
fn rights_after_move(board: &Chessboard, piece: Piece, from: u8, to: u8) -> (rights:
    CastlingRights)
    ensures
        rights == castling_after(*board, piece, from, to),
{
    let before = board.castling_rights;
    CastlingRights {
        white_king_side: before.white_king_side && !move_revokes(
            board,
            piece,
            from,
            to,
            true,
            WHITE_KING_ROOK_HOME,
        ),
        white_queen_side: before.white_queen_side && !move_revokes(
            board,
            piece,
            from,
            to,
            true,
            WHITE_QUEEN_ROOK_HOME,
        ),
        black_king_side: before.black_king_side && !move_revokes(
            board,
            piece,
            from,
            to,
            false,
            BLACK_KING_ROOK_HOME,
        ),
        black_queen_side: before.black_queen_side && !move_revokes(
            board,
            piece,
            from,
            to,
            false,
            BLACK_QUEEN_ROOK_HOME,
        ),
    }
}

impl GameState {
    /// How a request to move from `from` to `to` is answered: with the first
    /// of the three errors that applies, or with success.
    pub open spec fn move_outcome(&self, from: u8, to: u8) -> Result<(), MoveError> {
        match self.board.piece_on(from) {
            None => Err(MoveError::NoPieceAtSource),
            Some(piece) => {
                if piece.white != self.board.white_turn {
                    Err(MoveError::WrongSideToMove)
                } else if !self.moves_from(from).unwrap().contains(to) {
                    Err(MoveError::IllegalTarget)
                } else {
                    Ok(())
                }
            },
        }
    }

    /// Moves the piece on `from` to `to`, if the piece belongs to the side to
    /// move and `to` is one of its pseudo-legal destinations.
    ///
    /// On success the destination holds exactly the moved piece, a piece that
    /// stood there is captured, the origin is empty and the turn has passed.
    /// The en-passant square is the square passed over by a pawn's double
    /// step, else none. A castling right ends when its king or rook leaves
    /// its home square or its rook is captured there. A refused move changes
    /// nothing.
    pub fn move_piece_legally(&mut self, from: u8, to: u8) -> (outcome: Result<(), MoveError>)
        ensures
            outcome == old(self).move_outcome(from, to),
            outcome is Err ==> *final(self) == *old(self),
            outcome is Ok ==> {
                let piece = old(self).board.piece_on(from).unwrap();
                &&& from < 64 && to < 64 && from != to
                &&& is_position_after(old(self).board, final(self).board, piece, from, to)
                &&& final(self).board.piece_on(to) == Some(piece)
                &&& final(self).board.piece_on(from) is None
            },
            old(self).board.well_formed() ==> final(self).board.well_formed(),
    {
        let piece = match self.board.piece_at_position(from) {
            Some(p) => p,
            None => { return Err(MoveError::NoPieceAtSource); },
        };
        if piece.white != self.board.white_turn {
            return Err(MoveError::WrongSideToMove);
        }
        let allowed = match self.possible_moves(from) {
            Some(list) => contains_square(&list, to),
            None => false,
        };
        if !allowed {
            return Err(MoveError::IllegalTarget);
        }
        proof {
            lemma_moves_leave_origin(
                piece,
                from,
                self.board.side_mask(piece.white),
                self.board.side_mask(!piece.white),
                to,
            );
        }
        let rights = rights_after_move(&self.board, piece, from, to);
        let passed = if piece.kind == PieceKind::Pawn && (to == from + 16 || from == to + 16) {
            Some((from + to) / 2)
        } else {
            None
        };
        self.board.clear_square(from);
        self.board.clear_square(to);
        self.board.put(piece, to);
        let ghost placed = self.board;
        self.board.white_turn = !self.board.white_turn;
        self.board.en_passant = passed;
        self.board.castling_rights = rights;
        proof {
            // Passing the turn and updating the rights leaves the pieces alone.
            assert forall|q: Piece, s: u8| #[trigger]
                self.board.holds(q, s) == placed.holds(q, s) by {}
            self.board.lemma_piece_on(to);
            self.board.lemma_piece_on(from);
            assert(self.board.holds(piece, to));
        }
        Ok(())
    }
}

} // verus!
