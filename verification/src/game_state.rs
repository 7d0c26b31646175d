//! A game in progress: the position and the operations on it.

use vstd::prelude::*;
use crate::board::Chessboard;
use crate::error::ParseError;
use crate::fen_laws::{canonical_text, lemma_record_round_trip};
use crate::fen_util::{
    fen_fields, fen_text, fen_valid, read_fields, reads_as, split_record, write_record,
    FenFieldsView,
};
use crate::piece::Piece;

verus! {

/// A game in progress. It owns its position.
#[derive(Clone, Copy, Debug, PartialEq, Eq)]
pub struct GameState {
    pub board: Chessboard,
}

/// The position of a game that was read, or the error that reading gave.
pub open spec fn board_of(outcome: Result<GameState, ParseError>) -> Result<
    Chessboard,
    ParseError,
> {
    match outcome {
        Ok(game) => Ok(game.board),
        Err(e) => Err(e),
    }
}

impl GameState {
    /// A game at its start: the initial position, White to move.
    pub fn new() -> (game: GameState)
        ensures
            game.board == Chessboard::spec_initial(),
            game.board.well_formed(),
            forall|p: Piece, s: u8|
                game.board.holds(p, s) <==> Chessboard::initial_piece(s) == Some(p),
    {
        GameState { board: Chessboard::new() }
    }

    /// Reads a game from a record in Forsyth-Edwards notation.
    ///
    /// The record must have the form of six fields: a placement of eight
    /// ranks of eight files each, `w` or `b` for the side to move, `-` or
    /// castling letters of `KQkq` with none twice, `-` or the name of a
    /// square, and two counters, which are not kept.
    pub fn from_string(fen: &str) -> (outcome: Result<GameState, ParseError>)
        ensures
            match fen_fields(fen@) {
                None => outcome == Err::<GameState, ParseError>(ParseError::BadFormat),
                Some(fields) => reads_as(board_of(outcome), fields),
            },
            outcome is Ok <==> fen_valid(fen@),
            outcome matches Ok(game) ==> fen_text(game.board) == canonical_text(
                fen_fields(fen@).unwrap(),
            ),
    {
        match split_record(fen) {
            None => Err(ParseError::BadFormat),
            Some(fields) => GameState::from_fields(
                fields.placement.as_str(),
                fields.turn.as_str(),
                fields.castling.as_str(),
                fields.en_passant.as_str(),
            ),
        }
    }

    /// Reads a game from the four fields of a record that describe a
    /// position: the placement, the side to move, the castling rights and the
    /// en-passant square.
    pub fn from_fields(placement: &str, turn: &str, castling: &str, en_passant: &str) -> (outcome:
        Result<GameState, ParseError>)
        ensures
            reads_as(
                board_of(outcome),
                FenFieldsView {
                    placement: placement@,
                    turn: turn@,
                    castling: castling@,
                    en_passant: en_passant@,
                },
            ),
            outcome matches Ok(game) ==> fen_text(game.board) == canonical_text(
                FenFieldsView {
                    placement: placement@,
                    turn: turn@,
                    castling: castling@,
                    en_passant: en_passant@,
                },
            ),
    {
        match read_fields(placement, turn, castling, en_passant) {
            Ok(board) => {
                proof {
                    lemma_record_round_trip(
                        board,
                        FenFieldsView {
                            placement: placement@,
                            turn: turn@,
                            castling: castling@,
                            en_passant: en_passant@,
                        },
                    );
                }
                Ok(GameState { board })
            },
            Err(e) => Err(e),
        }
    }

    /// Writes the game as a record in Forsyth-Edwards notation, with `0 1`
    /// for the two counters.
    pub fn to_string(&self) -> (text: String)
        ensures
            text@ == fen_text(self.board),
    {
        write_record(&self.board)
    }
}

} // verus!
