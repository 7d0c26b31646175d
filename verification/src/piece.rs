//! Pieces and the letters that stand for them in text.

use vstd::prelude::*;
use crate::error::UnsupportedPieceError;

verus! {

/// The six kinds of chess piece.
#[derive(Clone, Copy, Debug, PartialEq, Eq, Structural)]
pub enum PieceKind {
    Pawn,
    Rook,
    Knight,
    Bishop,
    Queen,
    King,
}

/// A piece: its kind and its side.
#[derive(Clone, Copy, Debug, PartialEq, Eq, Structural)]
pub struct Piece {
    pub kind: PieceKind,
    /// `true` for White, `false` for Black.
    pub white: bool,
}

impl Piece {
    /// The letter of this piece: upper case for White, lower case for Black.
    pub open spec fn glyph_of(self) -> char {
        match (self.kind, self.white) {
            (PieceKind::Pawn, true) => 'P',
            (PieceKind::Rook, true) => 'R',
            (PieceKind::Knight, true) => 'N',
            (PieceKind::Bishop, true) => 'B',
            (PieceKind::Queen, true) => 'Q',
            (PieceKind::King, true) => 'K',
            (PieceKind::Pawn, false) => 'p',
            (PieceKind::Rook, false) => 'r',
            (PieceKind::Knight, false) => 'n',
            (PieceKind::Bishop, false) => 'b',
            (PieceKind::Queen, false) => 'q',
            (PieceKind::King, false) => 'k',
        }
    }

    /// The piece that the letter `c` stands for, if it stands for one.
    pub open spec fn of_glyph(c: char) -> Option<Piece> {
        if c == 'P' {
            Some(Piece { kind: PieceKind::Pawn, white: true })
        } else if c == 'R' {
            Some(Piece { kind: PieceKind::Rook, white: true })
        } else if c == 'N' {
            Some(Piece { kind: PieceKind::Knight, white: true })
        } else if c == 'B' {
            Some(Piece { kind: PieceKind::Bishop, white: true })
        } else if c == 'Q' {
            Some(Piece { kind: PieceKind::Queen, white: true })
        } else if c == 'K' {
            Some(Piece { kind: PieceKind::King, white: true })
        } else if c == 'p' {
            Some(Piece { kind: PieceKind::Pawn, white: false })
        } else if c == 'r' {
            Some(Piece { kind: PieceKind::Rook, white: false })
        } else if c == 'n' {
            Some(Piece { kind: PieceKind::Knight, white: false })
        } else if c == 'b' {
            Some(Piece { kind: PieceKind::Bishop, white: false })
        } else if c == 'q' {
            Some(Piece { kind: PieceKind::Queen, white: false })
        } else if c == 'k' {
            Some(Piece { kind: PieceKind::King, white: false })
        } else {
            None
        }
    }

    /// The letter of this piece.
    pub fn glyph(&self) -> (c: char)
        ensures
            c == self.glyph_of(),
    {
        match (self.kind, self.white) {
            (PieceKind::Pawn, true) => 'P',
            (PieceKind::Rook, true) => 'R',
            (PieceKind::Knight, true) => 'N',
            (PieceKind::Bishop, true) => 'B',
            (PieceKind::Queen, true) => 'Q',
            (PieceKind::King, true) => 'K',
            (PieceKind::Pawn, false) => 'p',
            (PieceKind::Rook, false) => 'r',
            (PieceKind::Knight, false) => 'n',
            (PieceKind::Bishop, false) => 'b',
            (PieceKind::Queen, false) => 'q',
            (PieceKind::King, false) => 'k',
        }
    }

    /// Reads a piece letter. Any other character is refused.
    pub fn from_glyph(c: char) -> (outcome: Result<Piece, UnsupportedPieceError>)
        ensures
            outcome == match Piece::of_glyph(c) {
                Some(piece) => Ok::<Piece, UnsupportedPieceError>(piece),
                None => Err(UnsupportedPieceError { glyph: c }),
            },
    {
        match c {
            'P' => Ok(Piece { kind: PieceKind::Pawn, white: true }),
            'R' => Ok(Piece { kind: PieceKind::Rook, white: true }),
            'N' => Ok(Piece { kind: PieceKind::Knight, white: true }),
            'B' => Ok(Piece { kind: PieceKind::Bishop, white: true }),
            'Q' => Ok(Piece { kind: PieceKind::Queen, white: true }),
            'K' => Ok(Piece { kind: PieceKind::King, white: true }),
            'p' => Ok(Piece { kind: PieceKind::Pawn, white: false }),
            'r' => Ok(Piece { kind: PieceKind::Rook, white: false }),
            'n' => Ok(Piece { kind: PieceKind::Knight, white: false }),
            'b' => Ok(Piece { kind: PieceKind::Bishop, white: false }),
            'q' => Ok(Piece { kind: PieceKind::Queen, white: false }),
            'k' => Ok(Piece { kind: PieceKind::King, white: false }),
            _ => Err(UnsupportedPieceError { glyph: c }),
        }
    }

    /// Reading a piece's letter gives the piece back, and a letter that reads
    /// as a piece is that piece's letter.
    pub proof fn lemma_glyph_round_trip(p: Piece, c: char)
        ensures
            Piece::of_glyph(p.glyph_of()) == Some(p),
            Piece::of_glyph(c) == Some(p) ==> p.glyph_of() == c,
            Piece::of_glyph(c) is Some ==> !('0' <= c && c <= '9') && c != '/',
    {
    }
}

} // verus!
