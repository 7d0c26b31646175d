//! Pseudo-legal move generation: the squares that the piece on a square can
//! go to by the way it moves, whether or not the move leaves its own king in
//! check.

use vstd::prelude::*;
use crate::bitboard::{file_of, has_bit, rank_of, square_file, square_rank, test_bit};
use crate::game_state::GameState;
use crate::move_laws::{
    in_line, lemma_bishop_moves_on_diagonal, lemma_queen_moves_on_lines, lemma_rook_moves_in_line,
    on_diagonal,
};
use crate::piece::{Piece, PieceKind};

verus! {

/// The destinations along one ray.
///
/// The ray runs from `from` in steps of `step`, over at most `count` squares.
/// It ends before the first square that holds a piece of the mover's side
/// (`own`), and with the first square that holds a piece of the other side
/// (`opp`), which is a capture. It never leaves the range of the board.
pub open spec fn ray_scan(from: int, step: int, count: nat, own: u64, opp: u64) -> Seq<u8>
    decreases count,
{
    let next = from + step;
    if count == 0 || next < 0 || next > 63 {
        Seq::empty()
    } else if has_bit(own, next as u8) {
        Seq::empty()
    } else if has_bit(opp, next as u8) {
        seq![next as u8]
    } else {
        seq![next as u8] + ray_scan(next, step, (count - 1) as nat, own, opp)
    }
}

/// The smaller of two numbers.
pub open spec fn least(a: int, b: int) -> int {
    if a <= b {
        a
    } else {
        b
    }
}

/// The destinations of a rook on `from`: along its rank toward the a-file,
/// along its rank toward the h-file, down its file and up its file, in that
/// order, each ray bounded by the edge of the board.
pub open spec fn rook_moves(from: u8, own: u64, opp: u64) -> Seq<u8> {
    if from >= 64 {
        Seq::empty()
    } else {
        let f = file_of(from as int);
        let r = rank_of(from as int);
        ray_scan(from as int, -1, f as nat, own, opp) + ray_scan(
            from as int,
            1,
            (7 - f) as nat,
            own,
            opp,
        ) + ray_scan(from as int, -8, r as nat, own, opp) + ray_scan(
            from as int,
            8,
            (7 - r) as nat,
            own,
            opp,
        )
    }
}

/// The destinations of a bishop on `from`: the four diagonals in the order
/// up-left (+7), up-right (+9), down-right (-7), down-left (-9), each bounded
/// by the number of squares left before an edge.
pub open spec fn bishop_moves(from: u8, own: u64, opp: u64) -> Seq<u8> {
    if from >= 64 {
        Seq::empty()
    } else {
        let f = file_of(from as int);
        let r = rank_of(from as int);
        ray_scan(from as int, 7, least(f, 7 - r) as nat, own, opp) + ray_scan(
            from as int,
            9,
            least(7 - f, 7 - r) as nat,
            own,
            opp,
        ) + ray_scan(from as int, -7, least(7 - f, r) as nat, own, opp) + ray_scan(
            from as int,
            -9,
            least(f, r) as nat,
            own,
            opp,
        )
    }
}

/// The destinations of a queen on `from`: those of a rook, then those of a
/// bishop.
pub open spec fn queen_moves(from: u8, own: u64, opp: u64) -> Seq<u8> {
    rook_moves(from, own, opp) + bishop_moves(from, own, opp)
}

/// The destination of a king's step from `from` by `offset`, if it has one:
/// the square must be on the board and must not hold a piece of the mover's
/// side. A step is told by its offset alone, so from the a-file or the h-file
/// it can end on the far file of a neighbouring rank.
pub open spec fn king_step(from: u8, offset: int, own: u64) -> Seq<u8> {
    let target = from + offset;
    if from < 64 && 0 <= target <= 63 && !has_bit(own, target as u8) {
        seq![target as u8]
    } else {
        Seq::empty()
    }
}

/// The destinations of a king on `from`, in the order of the offsets
/// +7, +8, +9, -1, +1, -9, -8, -7.
pub open spec fn king_moves(from: u8, own: u64) -> Seq<u8> {
    king_step(from, 7, own) + king_step(from, 8, own) + king_step(from, 9, own) + king_step(
        from,
        -1,
        own,
    ) + king_step(from, 1, own) + king_step(from, -9, own) + king_step(from, -8, own) + king_step(
        from,
        -7,
        own,
    )
}

/// The destination of a knight's jump from `from` by `df` files and `dr`
/// ranks, if it has one: the square must be on the board, so a jump never
/// wraps round an edge, and must not hold a piece of the mover's side.
pub open spec fn knight_jump(from: u8, df: int, dr: int, own: u64) -> Seq<u8> {
    let f = file_of(from as int) + df;
    let r = rank_of(from as int) + dr;
    if from < 64 && 0 <= f <= 7 && 0 <= r <= 7 && !has_bit(own, (8 * r + f) as u8) {
        seq![(8 * r + f) as u8]
    } else {
        Seq::empty()
    }
}

/// The destinations of a knight on `from`, in the order of the offsets
/// +15, +17, +10, -6, -15, -17, -10, +6.
pub open spec fn knight_moves(from: u8, own: u64) -> Seq<u8> {
    knight_jump(from, -1, 2, own) + knight_jump(from, 1, 2, own) + knight_jump(from, 2, 1, own)
        + knight_jump(from, 2, -1, own) + knight_jump(from, 1, -2, own) + knight_jump(
        from,
        -1,
        -2,
        own,
    ) + knight_jump(from, -2, -1, own) + knight_jump(from, -2, 1, own)
}

/// The direction in which a pawn of the given side moves: +1 rank for White,
/// -1 for Black.
pub open spec fn pawn_direction(white: bool) -> int {
    if white {
        1
    } else {
        -1
    }
}

/// The rank on which the pawns of the given side start.
pub open spec fn pawn_home_rank(white: bool) -> int {
    if white {
        1
    } else {
        6
    }
}

/// Whether no piece of either side stands on `square`.
pub open spec fn vacant(square: int, own: u64, opp: u64) -> bool {
    !has_bit(own, square as u8) && !has_bit(opp, square as u8)
}

/// The pushes of a pawn on `from`: one square forward onto a vacant square,
/// and from the pawn's home rank a second square if that is vacant too.
pub open spec fn pawn_pushes(from: u8, white: bool, own: u64, opp: u64) -> Seq<u8> {
    let forward = from + 8 * pawn_direction(white);
    let double = from + 16 * pawn_direction(white);
    if from < 64 && 0 <= forward <= 63 && vacant(forward, own, opp) {
        if rank_of(from as int) == pawn_home_rank(white) && vacant(double, own, opp) {
            seq![forward as u8, double as u8]
        } else {
            seq![forward as u8]
        }
    } else {
        Seq::empty()
    }
}

/// The capture of a pawn on `from` by `offset`, if it has one: the target
/// must be on the board, on a file next to the pawn's, and must hold a piece
/// of the other side.
pub open spec fn pawn_capture(from: u8, offset: int, opp: u64) -> Seq<u8> {
    let target = from + offset;
    let df = file_of(target) - file_of(from as int);
    if from < 64 && 0 <= target <= 63 && (df == 1 || df == -1) && has_bit(opp, target as u8) {
        seq![target as u8]
    } else {
        Seq::empty()
    }
}

/// The destinations of a pawn on `from`: its pushes, then its two diagonal
/// captures, the one by 7 before the one by 9.
pub open spec fn pawn_moves(from: u8, white: bool, own: u64, opp: u64) -> Seq<u8> {
    pawn_pushes(from, white, own, opp) + pawn_capture(from, 7 * pawn_direction(white), opp)
        + pawn_capture(from, 9 * pawn_direction(white), opp)
}

/// The destinations of `piece` standing on `from`, given the squares of its
/// own side and of the other side.
pub open spec fn piece_moves(piece: Piece, from: u8, own: u64, opp: u64) -> Seq<u8> {
    match piece.kind {
        PieceKind::Pawn => pawn_moves(from, piece.white, own, opp),
        PieceKind::Rook => rook_moves(from, own, opp),
        PieceKind::Knight => knight_moves(from, own),
        PieceKind::Bishop => bishop_moves(from, own, opp),
        PieceKind::King => king_moves(from, own),
        PieceKind::Queen => queen_moves(from, own, opp),
    }
}

impl GameState {
    /// The pseudo-legal destinations of the piece on `square`, or `None`
    /// where the square holds no piece.
    pub open spec fn moves_from(&self, square: u8) -> Option<Seq<u8>> {
        match self.board.piece_on(square) {
            None => None,
            Some(piece) => Some(
                piece_moves(
                    piece,
                    square,
                    self.board.side_mask(piece.white),
                    self.board.side_mask(!piece.white),
                ),
            ),
        }
    }

    /// Walks a ray of at most `count` squares from `from` in steps of `step`
    /// and collects the squares that a piece of side `white` can go to.
    pub fn move_until_piece(&self, from: u8, step: i8, count: u8, white: bool) -> (result: Vec<u8>)
        ensures
            result@ == ray_scan(
                from as int,
                step as int,
                count as nat,
                self.board.side_mask(white),
                self.board.side_mask(!white),
            ),
    {
        let own = self.board.one_side_pieces(white);
        let opps = self.board.one_side_pieces(!white);
        let mut result: Vec<u8> = Vec::new();
        let mut current: i16 = from as i16;
        let mut left: u8 = count;
        let mut open = true;
        let ghost whole = ray_scan(from as int, step as int, count as nat, own, opps);
        while open && left > 0
            invariant
                0 <= current <= 255,
                open ==> result@ + ray_scan(current as int, step as int, left as nat, own, opps)
                    == whole,
                !open ==> result@ == whole,
            decreases left + if open { 1int } else { 0int },
        {
            let next: i16 = current + step as i16;
            if next < 0 || next > 63 {
                open = false;
            } else {
                let square = next as u8;
                if test_bit(own, square) {
                    open = false;
                } else {
                    result.push(square);
                    if test_bit(opps, square) {
                        open = false;
                    } else {
                        current = next;
                        left = left - 1;
                    }
                }
            }
        }
        result
    }

    /// The pseudo-legal destinations of a rook of side `white` on `from`.
    pub fn possible_rook_moves(&self, from: u8, white: bool) -> (moves: Vec<u8>)
        ensures
            moves@ == rook_moves(from, self.board.side_mask(white), self.board.side_mask(!white)),
            forall|i: int| 0 <= i < moves.len() ==> in_line(from, #[trigger] moves[i]),
    {
        proof {
            lemma_rook_moves_in_line(
                from,
                self.board.side_mask(white),
                self.board.side_mask(!white),
            );
        }
        let mut result: Vec<u8> = Vec::new();
        if from >= 64 {
            return result;
        }
        let f = square_file(from);
        let r = square_rank(from);
        let mut toward_a = self.move_until_piece(from, -1, f, white);
        let mut toward_h = self.move_until_piece(from, 1, 7 - f, white);
        let mut down = self.move_until_piece(from, -8, r, white);
        let mut up = self.move_until_piece(from, 8, 7 - r, white);
        result.append(&mut toward_a);
        result.append(&mut toward_h);
        result.append(&mut down);
        result.append(&mut up);
        result
    }

    /// The pseudo-legal destinations of a bishop of side `white` on `from`.
    pub fn possible_bishop_moves(&self, from: u8, white: bool) -> (moves: Vec<u8>)
        ensures
            moves@ == bishop_moves(
                from,
                self.board.side_mask(white),
                self.board.side_mask(!white),
            ),
            forall|i: int| 0 <= i < moves.len() ==> on_diagonal(from, #[trigger] moves[i]),
    {
        proof {
            lemma_bishop_moves_on_diagonal(
                from,
                self.board.side_mask(white),
                self.board.side_mask(!white),
            );
        }
        let mut result: Vec<u8> = Vec::new();
        if from >= 64 {
            return result;
        }
        let f = square_file(from);
        let r = square_rank(from);
        let mut up_left = self.move_until_piece(from, 7, smaller(f, 7 - r), white);
        let mut up_right = self.move_until_piece(from, 9, smaller(7 - f, 7 - r), white);
        let mut down_right = self.move_until_piece(from, -7, smaller(7 - f, r), white);
        let mut down_left = self.move_until_piece(from, -9, smaller(f, r), white);
        result.append(&mut up_left);
        result.append(&mut up_right);
        result.append(&mut down_right);
        result.append(&mut down_left);
        result
    }

    /// The pseudo-legal destinations of a queen of side `white` on `from`.
    pub fn possible_queen_moves(&self, from: u8, white: bool) -> (moves: Vec<u8>)
        ensures
            moves@ == queen_moves(from, self.board.side_mask(white), self.board.side_mask(!white)),
            forall|i: int|
                0 <= i < moves.len() ==> in_line(from, #[trigger] moves[i]) || on_diagonal(
                    from,
                    moves[i],
                ),
    {
        proof {
            lemma_queen_moves_on_lines(
                from,
                self.board.side_mask(white),
                self.board.side_mask(!white),
            );
        }
        let mut result = self.possible_rook_moves(from, white);
        let mut diagonal = self.possible_bishop_moves(from, white);
        result.append(&mut diagonal);
        result
    }

    /// The pseudo-legal destinations of a king of side `white` on `from`.
    pub fn possible_king_moves(&self, from: u8, white: bool) -> (moves: Vec<u8>)
        ensures
            moves@ == king_moves(from, self.board.side_mask(white)),
    {
        let own = self.board.one_side_pieces(white);
        let mut result: Vec<u8> = Vec::new();
        push_king_step(&mut result, from, 7, own);
        push_king_step(&mut result, from, 8, own);
        push_king_step(&mut result, from, 9, own);
        push_king_step(&mut result, from, -1, own);
        push_king_step(&mut result, from, 1, own);
        push_king_step(&mut result, from, -9, own);
        push_king_step(&mut result, from, -8, own);
        push_king_step(&mut result, from, -7, own);
        result
    }

    /// The pseudo-legal destinations of a knight of side `white` on `from`.
    pub fn possible_knight_moves(&self, from: u8, white: bool) -> (moves: Vec<u8>)
        ensures
            moves@ == knight_moves(from, self.board.side_mask(white)),
    {
        let own = self.board.one_side_pieces(white);
        let mut result: Vec<u8> = Vec::new();
        push_knight_jump(&mut result, from, -1, 2, own);
        push_knight_jump(&mut result, from, 1, 2, own);
        push_knight_jump(&mut result, from, 2, 1, own);
        push_knight_jump(&mut result, from, 2, -1, own);
        push_knight_jump(&mut result, from, 1, -2, own);
        push_knight_jump(&mut result, from, -1, -2, own);
        push_knight_jump(&mut result, from, -2, -1, own);
        push_knight_jump(&mut result, from, -2, 1, own);
        result
    }

    /// The pseudo-legal destinations of a pawn of side `white` on `from`.
    pub fn possible_pawn_moves(&self, from: u8, white: bool) -> (moves: Vec<u8>)
        ensures
            moves@ == pawn_moves(
                from,
                white,
                self.board.side_mask(white),
                self.board.side_mask(!white),
            ),
    {
        let own = self.board.one_side_pieces(white);
        let opps = self.board.one_side_pieces(!white);
        let mut result: Vec<u8> = Vec::new();
        if from >= 64 {
            return result;
        }
        let direction: i16 = if white { 1 } else { -1 };
        let home: u8 = if white { 1 } else { 6 };
        let forward: i16 = from as i16 + 8 * direction;
        if 0 <= forward && forward <= 63 && !test_bit(own, forward as u8) && !test_bit(
            opps,
            forward as u8,
        ) {
            result.push(forward as u8);
            if square_rank(from) == home {
                let double: i16 = forward + 8 * direction;
                if !test_bit(own, double as u8) && !test_bit(opps, double as u8) {
                    result.push(double as u8);
                }
            }
        }
        push_pawn_capture(&mut result, from, 7 * direction, opps);
        push_pawn_capture(&mut result, from, 9 * direction, opps);
        result
    }

    /// The pseudo-legal destinations of the piece on `square`: `None` where
    /// the square holds no piece, and in particular for every square off the
    /// board.
    pub fn possible_moves(&self, square: u8) -> (moves: Option<Vec<u8>>)
        ensures
            moves is None <==> self.board.piece_on(square) is None,
            match moves {
                None => self.moves_from(square) is None,
                Some(list) => self.moves_from(square) == Some(list@),
            },
    {
        let piece = match self.board.piece_at_position(square) {
            Some(p) => p,
            None => { return None; },
        };
        let list = match piece.kind {
            PieceKind::Pawn => self.possible_pawn_moves(square, piece.white),
            PieceKind::Rook => self.possible_rook_moves(square, piece.white),
            PieceKind::Knight => self.possible_knight_moves(square, piece.white),
            PieceKind::Bishop => self.possible_bishop_moves(square, piece.white),
            PieceKind::King => self.possible_king_moves(square, piece.white),
            PieceKind::Queen => self.possible_queen_moves(square, piece.white),
        };
        Some(list)
    }
}

/// Appends the king's step by `offset` to `moves`, if it has a destination.
fn push_king_step(moves: &mut Vec<u8>, from: u8, offset: i8, own: u64)
    ensures
        final(moves)@ == old(moves)@ + king_step(from, offset as int, own),
{
    let target: i16 = from as i16 + offset as i16;
    if from < 64 && 0 <= target && target <= 63 && !test_bit(own, target as u8) {
        moves.push(target as u8);
    }
}

/// Appends the knight's jump by `df` files and `dr` ranks to `moves`, if it
/// has a destination.
fn push_knight_jump(moves: &mut Vec<u8>, from: u8, df: i8, dr: i8, own: u64)
    requires
        -2 <= df <= 2,
        -2 <= dr <= 2,
    ensures
        final(moves)@ == old(moves)@ + knight_jump(from, df as int, dr as int, own),
{
    if from < 64 {
        let f: i8 = square_file(from) as i8 + df;
        let r: i8 = square_rank(from) as i8 + dr;
        if 0 <= f && f <= 7 && 0 <= r && r <= 7 {
            let target: u8 = (8 * r + f) as u8;
            if !test_bit(own, target) {
                moves.push(target);
            }
        }
    }
}

/// Appends the pawn's capture by `offset` to `moves`, if it has one.
fn push_pawn_capture(moves: &mut Vec<u8>, from: u8, offset: i16, opp: u64)
    requires
        from < 64,
        -9 <= offset <= 9,
    ensures
        final(moves)@ == old(moves)@ + pawn_capture(from, offset as int, opp),
{
    let target: i16 = from as i16 + offset;
    if 0 <= target && target <= 63 {
        let square = target as u8;
        let here = square_file(from);
        let there = square_file(square);
        if (there == here + 1 || there + 1 == here) && test_bit(opp, square) {
            moves.push(square);
        }
    }
}

/// The smaller of two numbers.
fn smaller(a: u8, b: u8) -> (m: u8)
    ensures
        m == least(a as int, b as int),
{
    if a <= b {
        a
    } else {
        b
    }
}

} // verus!
