//! The errors that the library reports.

use vstd::prelude::*;
use crate::text::push_char;

verus! {

/// Why a move was refused.
#[derive(Clone, Copy, Debug, PartialEq, Eq, Structural)]
pub enum MoveError {
    /// The origin square holds no piece.
    NoPieceAtSource,
    /// The piece on the origin square belongs to the side that is not to
    /// move.
    WrongSideToMove,
    /// The destination is not among the pseudo-legal destinations of the
    /// piece on the origin square.
    IllegalTarget,
}

impl MoveError {
    /// The message of this error as a sequence of characters.
    pub open spec fn message_text(self) -> Seq<char> {
        match self {
            MoveError::NoPieceAtSource => "there is no piece on the origin square"@,
            MoveError::WrongSideToMove => "the piece on the origin square is not to move"@,
            MoveError::IllegalTarget => "the piece cannot go to the destination square"@,
        }
    }

    /// A message for the user.
    pub fn message(&self) -> (text: String)
        ensures
            text@ == self.message_text(),
    {
        match self {
            MoveError::NoPieceAtSource => "there is no piece on the origin square".to_string(),
            MoveError::WrongSideToMove => "the piece on the origin square is not to move".to_string(
            ),
            MoveError::IllegalTarget => "the piece cannot go to the destination square".to_string(),
        }
    }
}

/// A character that stands for no piece.
#[derive(Clone, Copy, Debug, PartialEq, Eq, Structural)]
pub struct UnsupportedPieceError {
    /// The character that was found.
    pub glyph: char,
}

impl UnsupportedPieceError {
    /// The message of this error as a sequence of characters.
    pub open spec fn message_text(self) -> Seq<char> {
        "no piece has the letter "@.push(self.glyph)
    }

    /// A message for the user.
    pub fn message(&self) -> (text: String)
        ensures
            text@ == self.message_text(),
    {
        let mut text = "no piece has the letter ".to_string();
        push_char(&mut text, self.glyph);
        text
    }
}

/// Why a text was refused.
#[derive(Clone, Copy, Debug, PartialEq, Eq, Structural)]
pub enum ParseError {
    /// The record does not have the form of six fields: placement, side to
    /// move, castling rights, en-passant square and two counters.
    BadFormat,
    /// The placement does not have exactly eight ranks.
    RankCount,
    /// A rank of the placement does not describe exactly eight files: it
    /// holds a character that is neither a piece letter nor a digit from 1
    /// to 8, or two digits in a row, or its squares do not add up to eight.
    BadRank,
    /// The side-to-move field is neither `w` nor `b`.
    BadTurn,
    /// The castling field is neither `-` nor one to four of the letters
    /// `KQkq`.
    BadCastling,
    /// A letter of the castling field occurs twice.
    DuplicateCastling,
    /// The en-passant field is neither `-` nor the name of a square, with
    /// the file letter in lower case.
    BadEnPassant,
    /// The text is not the name of a square.
    BadSquare,
}

impl ParseError {
    /// The message of this error as a sequence of characters.
    pub open spec fn message_text(self) -> Seq<char> {
        match self {
            ParseError::BadFormat => "the record does not have the form of a position"@,
            ParseError::RankCount => "the placement does not have eight ranks"@,
            ParseError::BadRank => "a rank of the placement does not describe eight files"@,
            ParseError::BadTurn => "the side to move is neither w nor b"@,
            ParseError::BadCastling => "the castling field holds more than letters of KQkq"@,
            ParseError::DuplicateCastling => "a castling letter occurs twice"@,
            ParseError::BadEnPassant => "the en-passant field names no square"@,
            ParseError::BadSquare => "the text is not the name of a square"@,
        }
    }

    /// A message for the user.
    pub fn message(&self) -> (text: String)
        ensures
            text@ == self.message_text(),
    {
        match self {
            ParseError::BadFormat => "the record does not have the form of a position".to_string(),
            ParseError::RankCount => "the placement does not have eight ranks".to_string(),
            ParseError::BadRank => "a rank of the placement does not describe eight files"
                .to_string(),
            ParseError::BadTurn => "the side to move is neither w nor b".to_string(),
            ParseError::BadCastling => "the castling field holds more than letters of KQkq"
                .to_string(),
            ParseError::DuplicateCastling => "a castling letter occurs twice".to_string(),
            ParseError::BadEnPassant => "the en-passant field names no square".to_string(),
            ParseError::BadSquare => "the text is not the name of a square".to_string(),
        }
    }
}

} // verus!
