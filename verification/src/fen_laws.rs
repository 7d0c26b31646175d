//! Reading a record and writing the position out again gives the record
//! back, in its canonical form.

use vstd::prelude::*;
use vstd::seq_lib::lemma_seq_concat_contains_all_elements;
use crate::board::{CastlingRights, Chessboard};
use crate::fen_util::{
    castles_text, castling_valid, fen_text, fields_error, glyph_cells, is_digit,
    is_position_of, join_rows, lemma_row_cells_of_prefix, letter_if, passant_of, passant_text,
    passant_valid, placement_cell, placement_text, placement_valid, rank_rows, rank_text,
    rights_of, row_cells, row_valid, split_rows, turn_is_white, turn_text, turn_valid,
    FenFieldsView,
};
use crate::piece::Piece;

verus! {

/// The canonical form of a castling field: those of the letters `KQkq` that
/// occur in it, each once and in that order, or `-` where none occurs.
pub open spec fn canonical_castling(text: Seq<char>) -> Seq<char> {
    castles_text(rights_of(text))
}

/// The canonical form of the four fields of a record that describe a
/// position: the fields as they are, but for the castling letters, which
/// stand in the order `KQkq`, and with `0 1` in place of the counters.
pub open spec fn canonical_text(fields: FenFieldsView) -> Seq<char> {
    fields.placement + seq![' '] + fields.turn + seq![' '] + canonical_castling(fields.castling)
        + seq![' '] + fields.en_passant + seq![' ', '0', ' ', '1']
}

/// Joining the parts of a text with `/` gives the text back.
pub proof fn lemma_join_of_split(text: Seq<char>)
    ensures
        split_rows(text).len() >= 1,
        join_rows(split_rows(text)) == text,
    decreases text.len(),
{
    if text.len() > 0 {
        let shorter = text.drop_last();
        let before = split_rows(shorter);
        lemma_join_of_split(shorter);
        if text.last() == '/' {
            let rows = before.push(Seq::empty());
            assert(rows.drop_last() == before);
        } else {
            let grown = before.last().push(text.last());
            let rows = before.drop_last().push(grown);
            assert(rows.drop_last() == before.drop_last());
            if before.len() > 1 {
                assert(join_rows(rows) == join_rows(before).push(text.last()));
            }
        }
    }
}

/// A run of empty squares only lengthens the run that is still to be written.
proof fn lemma_rank_text_over_gap(board: Chessboard, rank: int, file: int, empties: int, run: nat)
    requires
        0 <= file,
        file + run <= 8,
        forall|i: int| file <= i < file + run ==> #[trigger] board.piece_at(rank, i) is None,
    ensures
        rank_text(board, rank, file, empties) == rank_text(
            board,
            rank,
            file + run,
            empties + run,
        ),
    decreases run,
{
    if run > 0 {
        lemma_rank_text_over_gap(board, rank, file + 1, empties + 1, (run - 1) as nat);
    }
}

/// Where the squares of a rank hold what the text of the rank describes, the
/// text of the rank from the square that follows the first `j` characters is
/// the rest of the text.
proof fn lemma_rank_text_from(board: Chessboard, rank: int, row: Seq<char>, j: int)
    requires
        row_valid(row),
        0 <= j <= row.len(),
        forall|f: int| 0 <= f < 8 ==> #[trigger] board.piece_at(rank, f) == row_cells(row)[f],
    ensures
        rank_text(board, rank, row_cells(row.take(j)).len() as int, 0) == row.skip(j),
    decreases row.len() - j,
{
    let cells = row_cells(row);
    let seen = row_cells(row.take(j));
    let file = seen.len() as int;
    lemma_row_cells_of_prefix(row, j);
    if j == row.len() {
        assert(row.take(j) == row);
    } else {
        let c = row[j];
        lemma_row_cells_of_prefix(row, j + 1);
        assert(row.take(j + 1).drop_last() == row.take(j));
        if is_digit(c) {
            // A digit stands for a run of empty squares. The text of the rank
            // passes over them and writes the digit where the run ends: at
            // the end of the rank, or before the piece that follows, since no
            // digit follows a digit.
            let run = c as int - '0' as int;
            assert forall|i: int| file <= i < file + run implies #[trigger] board.piece_at(
                rank,
                i,
            ) is None by {
                assert(cells[i] == (seen + glyph_cells(c))[i]);
            }
            lemma_rank_text_over_gap(board, rank, file, 0, run as nat);
            if j + 1 < row.len() {
                let d = row[j + 1];
                lemma_row_cells_of_prefix(row, j + 2);
                assert(row.take(j + 2).drop_last() == row.take(j + 1));
                let piece = Piece::of_glyph(d).unwrap();
                Piece::lemma_glyph_round_trip(piece, d);
                assert(cells[file + run] == (seen + glyph_cells(c) + glyph_cells(d))[file + run]);
                lemma_rank_text_from(board, rank, row, j + 2);
            }
        } else {
            // A letter stands for the piece on the next square, which is
            // written as that letter.
            let piece = Piece::of_glyph(c).unwrap();
            Piece::lemma_glyph_round_trip(piece, c);
            assert(cells[file] == (seen + glyph_cells(c))[file]);
            lemma_rank_text_from(board, rank, row, j + 1);
        }
    }
}

/// In a position that a valid placement describes, the text of each rank is
/// the rank's part of the placement.
proof fn lemma_rank_rows_of_placement(board: Chessboard, placement: Seq<char>)
    requires
        placement_valid(placement),
        forall|q: Piece, s: u8|
            #![trigger board.holds(q, s)]
            board.holds(q, s) <==> placement_cell(placement, s) == Some(q),
    ensures
        rank_rows(board) == split_rows(placement),
{
    let rows = split_rows(placement);
    assert forall|i: int| 0 <= i < 8 implies #[trigger] rank_rows(board)[i] == rows[i] by {
        let rank = 7 - i;
        let row = rows[i];
        assert forall|f: int| 0 <= f < 8 implies #[trigger] board.piece_at(rank, f) == row_cells(
            row,
        )[f] by {
            let s = (8 * rank + f) as u8;
            board.lemma_piece_on(s);
            match row_cells(row)[f] {
                Some(q) => {
                    assert(board.holds(q, s));
                },
                None => {},
            }
        }
        lemma_rank_text_from(board, rank, row, 0);
    }
}

/// A position that was read from a valid placement is written as that
/// placement.
pub proof fn lemma_placement_round_trip(board: Chessboard, placement: Seq<char>)
    requires
        placement_valid(placement),
        forall|q: Piece, s: u8|
            #![trigger board.holds(q, s)]
            board.holds(q, s) <==> placement_cell(placement, s) == Some(q),
    ensures
        placement_text(board) == placement,
{
    lemma_rank_rows_of_placement(board, placement);
    lemma_join_of_split(placement);
}

/// The side to move that was read from a valid field is written as that
/// field.
pub proof fn lemma_turn_round_trip(text: Seq<char>)
    requires
        turn_valid(text),
    ensures
        turn_text(turn_is_white(text)) == text,
{
}

/// The en-passant square that was read from a valid field is on the board
/// and is written as that field.
pub proof fn lemma_passant_round_trip(text: Seq<char>)
    requires
        passant_valid(text),
    ensures
        passant_text(passant_of(text)) == text,
        passant_of(text) matches Some(square) ==> square < 64,
{
}

/// The castling rights that were written are read as they were, so the
/// canonical form of a castling field is its own canonical form.
pub proof fn lemma_castling_round_trip(rights: CastlingRights)
    ensures
        rights_of(castles_text(rights)) == rights,
        castling_valid(castles_text(rights)),
        castles_text(rights).no_duplicates(),
{
    let k = letter_if(rights.white_king_side, 'K');
    let q = letter_if(rights.white_queen_side, 'Q');
    let bk = letter_if(rights.black_king_side, 'k');
    let bq = letter_if(rights.black_queen_side, 'q');
    let text = castles_text(rights);
    assert forall|c: char| text.contains(c) <==> (c == 'K' && rights.white_king_side || c == 'Q'
        && rights.white_queen_side || c == 'k' && rights.black_king_side || c == 'q'
        && rights.black_queen_side || c == '-' && k + q + bk + bq == Seq::<char>::empty()) by {
        lemma_seq_concat_contains_all_elements(k, q, c);
        lemma_seq_concat_contains_all_elements(k + q, bk, c);
        lemma_seq_concat_contains_all_elements(k + q + bk, bq, c);
        if k.len() > 0 {
            assert(k[0] == 'K');
        }
        if q.len() > 0 {
            assert(q[0] == 'Q');
        }
        if bk.len() > 0 {
            assert(bk[0] == 'k');
        }
        if bq.len() > 0 {
            assert(bq[0] == 'q');
        }
        if (k + q + bk + bq).len() == 0 {
            assert(text[0] == '-');
        }
    }
}

/// Reading a record and writing the position out again gives the canonical
/// form of the record: the placement, the side to move and the en-passant
/// square as they were, the castling letters in the order `KQkq`, and `0 1`
/// for the counters, which a position does not hold.
pub proof fn lemma_record_round_trip(board: Chessboard, fields: FenFieldsView)
    requires
        fields_error(fields) is None,
        is_position_of(board, fields),
    ensures
        fen_text(board) == canonical_text(fields),
{
    lemma_placement_round_trip(board, fields.placement);
    lemma_turn_round_trip(fields.turn);
    lemma_passant_round_trip(fields.en_passant);
}

} // verus!
