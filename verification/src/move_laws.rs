//! What holds of every list of destinations: sliding pieces keep to their
//! lines and never wrap round an edge of the board, and the destinations of a
//! knight and of a king turn with the board.

use vstd::prelude::*;
use vstd::seq_lib::lemma_seq_concat_contains_all_elements;
use crate::bitboard::{file_of, has_bit, rank_of};
use crate::board::Chessboard;
use crate::game_state::GameState;
use crate::move_generation::{
    bishop_moves, king_moves, king_step, knight_jump, knight_moves, least, queen_moves, ray_scan,
    rook_moves,
};
use crate::piece::{Piece, PieceKind};

verus! {

/// `k` steps in a direction that is -1, 0 or +1.
pub open spec fn scaled(direction: int, k: int) -> int {
    if direction > 0 {
        k
    } else if direction < 0 {
        -k
    } else {
        0
    }
}

/// Whether `to` lies on the rank or on the file of `from`, and is another
/// square.
pub open spec fn in_line(from: u8, to: u8) -> bool {
    &&& to < 64
    &&& to != from
    &&& (rank_of(to as int) == rank_of(from as int) || file_of(to as int) == file_of(from as int))
}

/// Whether `to` lies on a diagonal through `from`, and is another square.
pub open spec fn on_diagonal(from: u8, to: u8) -> bool {
    let df = file_of(to as int) - file_of(from as int);
    let dr = rank_of(to as int) - rank_of(from as int);
    &&& to < 64
    &&& to != from
    &&& (df == dr || df == -dr)
}

/// Whether a king on `from` reaches `to`: the two squares differ by one of
/// the eight offsets, and `to` is on the board and not held by the mover's
/// side.
pub open spec fn king_reaches(from: u8, to: u8, own: u64) -> bool {
    let d = to - from;
    &&& from < 64
    &&& to < 64
    &&& !has_bit(own, to)
    &&& (d == 1 || d == -1 || d == 7 || d == -7 || d == 8 || d == -8 || d == 9 || d == -9)
}

/// Whether a knight on `from` reaches `to`: one file and two ranks apart, or
/// two files and one rank, with `to` on the board and not held by the mover's
/// side.
pub open spec fn knight_reaches(from: u8, to: u8, own: u64) -> bool {
    let df = file_of(to as int) - file_of(from as int);
    let dr = rank_of(to as int) - rank_of(from as int);
    &&& from < 64
    &&& to < 64
    &&& !has_bit(own, to)
    &&& ((df == 1 || df == -1) && (dr == 2 || dr == -2) || (df == 2 || df == -2) && (dr == 1 || dr
        == -1))
}

/// Whether `turned` is `mask` after the board is turned by 180 degrees, which
/// takes square `s` to square `63 - s`.
pub open spec fn is_rotation(mask: u64, turned: u64) -> bool {
    forall|s: u8| s < 64 ==> has_bit(turned, (63 - s) as u8) == has_bit(mask, s)
}

/// The squares of a ray lie one after another in its direction: the `i`-th
/// destination is `i + 1` steps from the origin, in files and in ranks alike.
/// So a ray that is bounded by the room before the edge stays on its line and
/// never wraps. No destination holds a piece of the mover's side, and only the
/// last can hold one of the other side.
pub proof fn lemma_ray_geometry(from: int, df: int, dr: int, count: nat, own: u64, opp: u64)
    requires
        0 <= from < 64,
        -1 <= df <= 1,
        -1 <= dr <= 1,
        0 <= file_of(from) + scaled(df, count as int) <= 7,
        0 <= rank_of(from) + scaled(dr, count as int) <= 7,
    ensures
        ray_scan(from, 8 * dr + df, count, own, opp).len() <= count,
        forall|i: int|
            #![trigger ray_scan(from, 8 * dr + df, count, own, opp)[i]]
            0 <= i < ray_scan(from, 8 * dr + df, count, own, opp).len() ==> {
                let to = ray_scan(from, 8 * dr + df, count, own, opp)[i];
                &&& to < 64
                &&& file_of(to as int) == file_of(from) + scaled(df, i + 1)
                &&& rank_of(to as int) == rank_of(from) + scaled(dr, i + 1)
                &&& !has_bit(own, to)
                &&& has_bit(opp, to) ==> i == ray_scan(from, 8 * dr + df, count, own, opp).len()
                    - 1
            },
    decreases count,
{
    let step = 8 * dr + df;
    let ray = ray_scan(from, step, count, own, opp);
    let next = from + step;
    if count > 0 {
        assert(file_of(next) == file_of(from) + df && rank_of(next) == rank_of(from) + dr);
        if !has_bit(own, next as u8) && !has_bit(opp, next as u8) {
            lemma_ray_geometry(next, df, dr, (count - 1) as nat, own, opp);
            assert forall|i: int| 0 <= i < ray.len() implies {
                let to = #[trigger] ray[i];
                &&& to < 64
                &&& file_of(to as int) == file_of(from) + scaled(df, i + 1)
                &&& rank_of(to as int) == rank_of(from) + scaled(dr, i + 1)
                &&& !has_bit(own, to)
                &&& has_bit(opp, to) ==> i == ray.len() - 1
            } by {}
        }
    }
}

/// Every destination of a rook lies on the rook's rank or file: no ray
/// crosses an edge of the board.
pub proof fn lemma_rook_moves_in_line(from: u8, own: u64, opp: u64)
    ensures
        forall|i: int|
            0 <= i < rook_moves(from, own, opp).len() ==> in_line(
                from,
                #[trigger] rook_moves(from, own, opp)[i],
            ),
{
    if from < 64 {
        let f = file_of(from as int);
        let r = rank_of(from as int);
        lemma_ray_geometry(from as int, -1, 0, f as nat, own, opp);
        lemma_ray_geometry(from as int, 1, 0, (7 - f) as nat, own, opp);
        lemma_ray_geometry(from as int, 0, -1, r as nat, own, opp);
        lemma_ray_geometry(from as int, 0, 1, (7 - r) as nat, own, opp);
    }
}

/// Every destination of a bishop lies on a diagonal through the bishop's
/// square: no ray crosses an edge of the board.
pub proof fn lemma_bishop_moves_on_diagonal(from: u8, own: u64, opp: u64)
    ensures
        forall|i: int|
            0 <= i < bishop_moves(from, own, opp).len() ==> on_diagonal(
                from,
                #[trigger] bishop_moves(from, own, opp)[i],
            ),
{
    if from < 64 {
        let f = file_of(from as int);
        let r = rank_of(from as int);
        lemma_ray_geometry(from as int, -1, 1, least(f, 7 - r) as nat, own, opp);
        lemma_ray_geometry(from as int, 1, 1, least(7 - f, 7 - r) as nat, own, opp);
        lemma_ray_geometry(from as int, 1, -1, least(7 - f, r) as nat, own, opp);
        lemma_ray_geometry(from as int, -1, -1, least(f, r) as nat, own, opp);
    }
}

/// Every destination of a queen lies on a rank, file or diagonal through the
/// queen's square.
pub proof fn lemma_queen_moves_on_lines(from: u8, own: u64, opp: u64)
    ensures
        forall|i: int|
            0 <= i < queen_moves(from, own, opp).len() ==> {
                let to = #[trigger] queen_moves(from, own, opp)[i];
                in_line(from, to) || on_diagonal(from, to)
            },
{
    lemma_rook_moves_in_line(from, own, opp);
    lemma_bishop_moves_on_diagonal(from, own, opp);
}

/// A king's step holds `to` exactly when `to` is its destination.
proof fn lemma_king_step_contains(from: u8, offset: int, own: u64, to: u8)
    ensures
        king_step(from, offset, own).contains(to) <==> from < 64 && to < 64 && to == from + offset
            && !has_bit(own, to),
{
    let step = king_step(from, offset, own);
    if step.len() > 0 {
        assert(step[0] == (from + offset) as u8);
    }
}

/// The list of a king's destinations holds exactly the squares that the king
/// reaches.
pub proof fn lemma_king_moves_contains(from: u8, own: u64, to: u8)
    ensures
        king_moves(from, own).contains(to) <==> king_reaches(from, to, own),
{
    let s0 = king_step(from, 7, own);
    let s1 = king_step(from, 8, own);
    let s2 = king_step(from, 9, own);
    let s3 = king_step(from, -1, own);
    let s4 = king_step(from, 1, own);
    let s5 = king_step(from, -9, own);
    let s6 = king_step(from, -8, own);
    let s7 = king_step(from, -7, own);
    lemma_king_step_contains(from, 7, own, to);
    lemma_king_step_contains(from, 8, own, to);
    lemma_king_step_contains(from, 9, own, to);
    lemma_king_step_contains(from, -1, own, to);
    lemma_king_step_contains(from, 1, own, to);
    lemma_king_step_contains(from, -9, own, to);
    lemma_king_step_contains(from, -8, own, to);
    lemma_king_step_contains(from, -7, own, to);
    lemma_seq_concat_contains_all_elements(s0, s1, to);
    lemma_seq_concat_contains_all_elements(s0 + s1, s2, to);
    lemma_seq_concat_contains_all_elements(s0 + s1 + s2, s3, to);
    lemma_seq_concat_contains_all_elements(s0 + s1 + s2 + s3, s4, to);
    lemma_seq_concat_contains_all_elements(s0 + s1 + s2 + s3 + s4, s5, to);
    lemma_seq_concat_contains_all_elements(s0 + s1 + s2 + s3 + s4 + s5, s6, to);
    lemma_seq_concat_contains_all_elements(s0 + s1 + s2 + s3 + s4 + s5 + s6, s7, to);
}

/// A knight's jump holds `to` exactly when `to` is its destination.
proof fn lemma_knight_jump_contains(from: u8, df: int, dr: int, own: u64, to: u8)
    ensures
        knight_jump(from, df, dr, own).contains(to) <==> from < 64 && to < 64 && file_of(to as int)
            == file_of(from as int) + df && rank_of(to as int) == rank_of(from as int) + dr
            && !has_bit(own, to),
{
    let jump = knight_jump(from, df, dr, own);
    if jump.len() > 0 {
        assert(jump[0] == (8 * (rank_of(from as int) + dr) + file_of(from as int) + df) as u8);
    }
}

/// The list of a knight's destinations holds exactly the squares that the
/// knight reaches.
pub proof fn lemma_knight_moves_contains(from: u8, own: u64, to: u8)
    ensures
        knight_moves(from, own).contains(to) <==> knight_reaches(from, to, own),
{
    let s0 = knight_jump(from, -1, 2, own);
    let s1 = knight_jump(from, 1, 2, own);
    let s2 = knight_jump(from, 2, 1, own);
    let s3 = knight_jump(from, 2, -1, own);
    let s4 = knight_jump(from, 1, -2, own);
    let s5 = knight_jump(from, -1, -2, own);
    let s6 = knight_jump(from, -2, -1, own);
    let s7 = knight_jump(from, -2, 1, own);
    lemma_knight_jump_contains(from, -1, 2, own, to);
    lemma_knight_jump_contains(from, 1, 2, own, to);
    lemma_knight_jump_contains(from, 2, 1, own, to);
    lemma_knight_jump_contains(from, 2, -1, own, to);
    lemma_knight_jump_contains(from, 1, -2, own, to);
    lemma_knight_jump_contains(from, -1, -2, own, to);
    lemma_knight_jump_contains(from, -2, -1, own, to);
    lemma_knight_jump_contains(from, -2, 1, own, to);
    lemma_seq_concat_contains_all_elements(s0, s1, to);
    lemma_seq_concat_contains_all_elements(s0 + s1, s2, to);
    lemma_seq_concat_contains_all_elements(s0 + s1 + s2, s3, to);
    lemma_seq_concat_contains_all_elements(s0 + s1 + s2 + s3, s4, to);
    lemma_seq_concat_contains_all_elements(s0 + s1 + s2 + s3 + s4, s5, to);
    lemma_seq_concat_contains_all_elements(s0 + s1 + s2 + s3 + s4 + s5, s6, to);
    lemma_seq_concat_contains_all_elements(s0 + s1 + s2 + s3 + s4 + s5 + s6, s7, to);
}

/// The destinations of a king turn with the board: where the squares of the
/// mover's side are turned by 180 degrees, a king on `63 - from` reaches
/// `63 - to` exactly when a king on `from` reaches `to`. On a board that is
/// empty but for the king, the two sets of destinations mirror each other.
pub proof fn lemma_king_moves_rotate(from: u8, own: u64, turned: u64)
    requires
        from < 64,
        is_rotation(own, turned),
    ensures
        forall|to: u8|
            to < 64 ==> (#[trigger] king_moves(from, own).contains(to) <==> king_moves(
                (63 - from) as u8,
                turned,
            ).contains((63 - to) as u8)),
{
    assert forall|to: u8| to < 64 implies (#[trigger] king_moves(from, own).contains(to)
        <==> king_moves((63 - from) as u8, turned).contains((63 - to) as u8)) by {
        lemma_king_moves_contains(from, own, to);
        lemma_king_moves_contains((63 - from) as u8, turned, (63 - to) as u8);
    }
}

/// Turning the board by 180 degrees takes file `f` to file `7 - f` and rank
/// `r` to rank `7 - r`.
pub proof fn lemma_rotation_coordinates(s: u8)
    requires
        s < 64,
    ensures
        file_of(63 - s) == 7 - file_of(s as int),
        rank_of(63 - s) == 7 - rank_of(s as int),
{
}

/// A knight on the turned board reaches the turned square exactly when the
/// knight on the board as it was reaches the square as it was.
proof fn lemma_knight_reach_rotates(from: u8, to: u8, own: u64, turned: u64)
    requires
        from < 64,
        to < 64,
        is_rotation(own, turned),
    ensures
        knight_reaches(from, to, own) <==> knight_reaches(
            (63 - from) as u8,
            (63 - to) as u8,
            turned,
        ),
{
    lemma_rotation_coordinates(from);
    lemma_rotation_coordinates(to);
}

/// The destinations of a knight turn with the board: where the squares of the
/// mover's side are turned by 180 degrees, a knight on `63 - from` reaches
/// `63 - to` exactly when a knight on `from` reaches `to`. On a board that is
/// empty but for the knight, the two sets of destinations mirror each other.
pub proof fn lemma_knight_moves_rotate(from: u8, own: u64, turned: u64)
    requires
        from < 64,
        is_rotation(own, turned),
    ensures
        forall|to: u8|
            to < 64 ==> (#[trigger] knight_moves(from, own).contains(to) <==> knight_moves(
                (63 - from) as u8,
                turned,
            ).contains((63 - to) as u8)),
{
    assert forall|to: u8| to < 64 implies (#[trigger] knight_moves(from, own).contains(to)
        <==> knight_moves((63 - from) as u8, turned).contains((63 - to) as u8)) by {
        lemma_knight_moves_contains(from, own, to);
        lemma_knight_moves_contains((63 - from) as u8, turned, (63 - to) as u8);
        lemma_knight_reach_rotates(from, to, own, turned);
    }
}

/// Whether `board` holds `piece` on `square` and nothing else.
pub open spec fn holds_only(board: Chessboard, piece: Piece, square: u8) -> bool {
    forall|q: Piece, s: u8| #[trigger] board.holds(q, s) <==> (q == piece && s == square)
}

/// On a board that is empty but for one knight or king, the destinations
/// turn with the board: the piece on `63 - from` goes to `63 - to` exactly
/// when the piece on `from` goes to `to`.
pub proof fn lemma_lone_piece_rotates(piece: Piece, from: u8, here: GameState, there: GameState)
    requires
        from < 64,
        piece.kind == PieceKind::Knight || piece.kind == PieceKind::King,
        holds_only(here.board, piece, from),
        holds_only(there.board, piece, (63 - from) as u8),
    ensures
        here.moves_from(from) is Some,
        there.moves_from((63 - from) as u8) is Some,
        forall|to: u8|
            to < 64 ==> (#[trigger] here.moves_from(from).unwrap().contains(to)
                <==> there.moves_from((63 - from) as u8).unwrap().contains((63 - to) as u8)),
{
    let back = (63 - from) as u8;
    let own = here.board.side_mask(piece.white);
    let turned = there.board.side_mask(piece.white);
    here.board.lemma_piece_on(from);
    there.board.lemma_piece_on(back);
    assert(here.board.holds(piece, from));
    assert(there.board.holds(piece, back));
    assert forall|s: u8| s < 64 implies has_bit(turned, (63 - s) as u8) == has_bit(own, s) by {
        here.board.lemma_side_mask(piece.white, s);
        there.board.lemma_side_mask(piece.white, (63 - s) as u8);
    }
    if piece.kind == PieceKind::Knight {
        lemma_knight_moves_rotate(from, own, turned);
    } else {
        lemma_king_moves_rotate(from, own, turned);
    }
}

} // verus!
