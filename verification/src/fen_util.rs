//! The text form of a position, in Forsyth-Edwards notation: reading the
//! fields of a record into a position and writing a position out again.
//!
//! The placement field lists the ranks from the eighth down to the first,
//! separated by `/`. Within a rank a letter stands for a piece and a digit
//! for that many empty squares, from the a-file to the h-file.

use vstd::prelude::*;
use vstd::seq_lib::lemma_seq_contains_after_push;
use vstd::string::StringExecFns;
use regex::Regex;
use crate::bitboard::{file_of, rank_of};
use crate::board::{CastlingRights, Chessboard};
use crate::error::ParseError;
use crate::move_generation::least;
use crate::piece::Piece;
use crate::position::{
    digit_to_rank, letter_to_file, name_of_square, square_of_name, square_to_string,
};
use crate::text::{chars_of, push_char};

verus! {

/// Whether `c` is one of the digits `0` to `9`.
pub open spec fn is_digit(c: char) -> bool {
    '0' <= c && c <= '9'
}

/// The number that the digit `c` stands for.
pub open spec fn digit_value(c: char) -> int {
    c as int - '0' as int
}

/// The parts of `text` between the separators `/`. A text without a
/// separator is one part, and an empty text is one empty part.
pub open spec fn split_rows(text: Seq<char>) -> Seq<Seq<char>>
    decreases text.len(),
{
    if text.len() == 0 {
        seq![Seq::empty()]
    } else {
        let before = split_rows(text.drop_last());
        if text.last() == '/' {
            before.push(Seq::empty())
        } else {
            before.drop_last().push(before.last().push(text.last()))
        }
    }
}

/// The squares that one character of a rank describes: a digit stands for
/// that many empty squares, a piece letter for the piece, and any other
/// character for one empty square.
pub open spec fn glyph_cells(c: char) -> Seq<Option<Piece>> {
    if is_digit(c) {
        Seq::new(digit_value(c) as nat, |i: int| None)
    } else {
        seq![Piece::of_glyph(c)]
    }
}

/// The squares that the text of one rank describes, from the a-file on.
pub open spec fn row_cells(row: Seq<char>) -> Seq<Option<Piece>>
    decreases row.len(),
{
    if row.len() == 0 {
        Seq::empty()
    } else {
        row_cells(row.drop_last()) + glyph_cells(row.last())
    }
}

/// The square of `cells` on `file`, empty where the cells do not reach.
pub open spec fn cell_at(cells: Seq<Option<Piece>>, file: int) -> Option<Piece> {
    if 0 <= file < cells.len() {
        cells[file]
    } else {
        None
    }
}

/// What the placement `text` puts on `square`. The last rank of the text is
/// the first rank of the board. A square that the text does not reach is
/// empty.
pub open spec fn placement_cell(text: Seq<char>, square: u8) -> Option<Piece> {
    let rows = split_rows(text);
    let index = rows.len() - 1 - rank_of(square as int);
    if square < 64 && 0 <= index {
        cell_at(row_cells(rows[index]), file_of(square as int))
    } else {
        None
    }
}

/// The rows of `rows` as sequences of characters.
pub open spec fn rows_view(rows: Seq<Vec<char>>) -> Seq<Seq<char>> {
    rows.map_values(|row: Vec<char>| row@)
}

/// Splits `text` at each `/`.
pub fn split_at_slashes(text: &Vec<char>) -> (rows: Vec<Vec<char>>)
    ensures
        rows_view(rows@) == split_rows(text@),
        rows.len() >= 1,
{
    let mut rows: Vec<Vec<char>> = Vec::new();
    let mut current: Vec<char> = Vec::new();
    let mut i: usize = 0;
    while i < text.len()
        invariant
            i <= text.len(),
            rows_view(rows@).push(current@) == split_rows(text@.take(i as int)),
        decreases text.len() - i,
    {
        let c = text[i];
        proof {
            assert(text@.take(i + 1).drop_last() == text@.take(i as int));
        }
        if c == '/' {
            rows.push(current);
            current = Vec::new();
        } else {
            current.push(c);
        }
        i = i + 1;
    }
    assert(text@.take(text.len() as int) == text@);
    rows.push(current);
    rows
}

/// The squares that a part of a rank's text describes are the first of the
/// squares that the whole text describes.
pub proof fn lemma_row_cells_of_prefix(row: Seq<char>, j: int)
    requires
        0 <= j <= row.len(),
    ensures
        row_cells(row.take(j)).len() <= row_cells(row).len(),
        row_cells(row.take(j)) == row_cells(row).take(row_cells(row.take(j)).len() as int),
    decreases row.len(),
{
    if j == row.len() {
        assert(row.take(j) == row);
    } else {
        assert(row.take(j) == row.drop_last().take(j));
        lemma_row_cells_of_prefix(row.drop_last(), j);
    }
}

/// Puts the pieces of one rank's text on the eight squares from `base` on.
/// A piece beyond the h-file is left out.
fn place_row(board: &mut Chessboard, row: &Vec<char>, base: u8)
    requires
        base <= 56,
        base % 8 == 0,
    ensures
        forall|q: Piece, s: u8|
            final(board).holds(q, s) == (old(board).holds(q, s) || (base <= s < base + 8
                && cell_at(row_cells(row@), s - base) == Some(q))),
        final(board).same_state(old(board)),
{
    let mut file: u8 = 0;
    let mut j: usize = 0;
    while j < row.len()
        invariant
            j <= row.len(),
            base <= 56,
            file == least(row_cells(row@.take(j as int)).len() as int, 8),
            forall|q: Piece, s: u8|
                board.holds(q, s) == (old(board).holds(q, s) || (base <= s < base + file
                    && cell_at(row_cells(row@.take(j as int)), s - base) == Some(q))),
            board.same_state(old(board)),
        decreases row.len() - j,
    {
        let c = row[j];
        proof {
            assert(row@.take(j + 1).drop_last() == row@.take(j as int));
        }
        if file < 8 {
            if '0' <= c && c <= '9' {
                let gap = (c as u32 - '0' as u32) as u8;
                file = if gap >= 8 - file {
                    8
                } else {
                    file + gap
                };
            } else {
                match Piece::from_glyph(c) {
                    Ok(piece) => {
                        board.put(piece, base + file);
                    },
                    Err(_) => {},
                }
                file = file + 1;
            }
        }
        j = j + 1;
    }
    assert(row@.take(row.len() as int) == row@);
}

/// Sets the pieces of `chessboard` as the placement field `fen_rows` gives
/// them, and leaves the side to move, the castling rights and the en-passant
/// square as they were.
///
/// The text is read as it stands: the last rank of the text goes to the first
/// rank of the board, and what lies beyond the h-file or above the eighth
/// rank is left out.
pub fn place_pieces(chessboard: &mut Chessboard, fen_rows: &str)
    ensures
        forall|q: Piece, s: u8|
            final(chessboard).holds(q, s) <==> placement_cell(fen_rows@, s) == Some(q),
        final(chessboard).no_overlap(),
        final(chessboard).same_state(old(chessboard)),
{
    chessboard.clear();
    let text = chars_of(fen_rows);
    let rows = split_at_slashes(&text);
    let count = rows.len();
    let mut index: usize = 0;
    while index < count
        invariant
            index <= count,
            count == rows.len(),
            count >= 1,
            rows_view(rows@) == split_rows(fen_rows@),
            forall|q: Piece, s: u8|
                chessboard.holds(q, s) <==> (count - 1 - rank_of(s as int) < index
                    && placement_cell(fen_rows@, s) == Some(q)),
            chessboard.same_state(old(chessboard)),
        decreases count - index,
    {
        let from_bottom = count - 1 - index;
        if from_bottom < 8 {
            place_row(chessboard, &rows[index], (from_bottom * 8) as u8);
        }
        index = index + 1;
    }
}

/// Whether `c` may stand in a rank of a placement: a piece letter or a digit
/// from 1 to 8.
pub open spec fn glyph_valid(c: char) -> bool {
    ('1' <= c && c <= '8') || Piece::of_glyph(c) is Some
}

/// Whether `row` is the text of one rank: every character is a piece letter
/// or a digit from 1 to 8, no digit follows a digit, and the squares add up
/// to eight.
pub open spec fn row_valid(row: Seq<char>) -> bool {
    &&& forall|i: int| 0 <= i < row.len() ==> glyph_valid(#[trigger] row[i])
    &&& forall|i: int|
        #![trigger row[i]]
        0 < i < row.len() ==> !(is_digit(row[i - 1]) && is_digit(row[i]))
    &&& row_cells(row).len() == 8
}

/// Whether `text` is a placement: eight ranks, each the text of one rank.
pub open spec fn placement_valid(text: Seq<char>) -> bool {
    &&& split_rows(text).len() == 8
    &&& forall|i: int| 0 <= i < 8 ==> row_valid(#[trigger] split_rows(text)[i])
}

/// Whether `text` is a side-to-move field: `w` or `b`.
pub open spec fn turn_valid(text: Seq<char>) -> bool {
    text.len() == 1 && (text[0] == 'w' || text[0] == 'b')
}

/// Whether `c` is one of the four castling letters `K`, `Q`, `k`, `q`.
pub open spec fn is_castling_letter(c: char) -> bool {
    c == 'K' || c == 'Q' || c == 'k' || c == 'q'
}

/// Whether `text` has the form of a castling field: `-`, or one to four
/// castling letters. Whether a letter occurs twice is another matter.
pub open spec fn castling_valid(text: Seq<char>) -> bool {
    ||| text.len() == 1 && text[0] == '-'
    ||| 1 <= text.len() <= 4 && forall|i: int|
        0 <= i < text.len() ==> is_castling_letter(#[trigger] text[i])
}

/// Whether `text` is an en-passant field: `-`, or a file letter from `a` to
/// `h` and a rank digit from `1` to `8`.
pub open spec fn passant_valid(text: Seq<char>) -> bool {
    ||| text.len() == 1 && text[0] == '-'
    ||| text.len() == 2 && 'a' <= text[0] && text[0] <= 'h' && '1' <= text[1] && text[1] <= '8'
}

/// What is wrong with the four fields of a record that describe a position,
/// if anything. The fields are looked at in their order, and the first fault
/// counts: a wrong number of ranks; a rank that is not the text of one; a
/// side to move other than `w` or `b`; a castling field that is neither `-`
/// nor one to four letters of `KQkq`; a castling letter that occurs twice; an
/// en-passant field that is neither `-` nor the name of a square.
pub open spec fn fields_error(fields: FenFieldsView) -> Option<ParseError> {
    if split_rows(fields.placement).len() != 8 {
        Some(ParseError::RankCount)
    } else if !placement_valid(fields.placement) {
        Some(ParseError::BadRank)
    } else if !turn_valid(fields.turn) {
        Some(ParseError::BadTurn)
    } else if !castling_valid(fields.castling) {
        Some(ParseError::BadCastling)
    } else if !fields.castling.no_duplicates() {
        Some(ParseError::DuplicateCastling)
    } else if !passant_valid(fields.en_passant) {
        Some(ParseError::BadEnPassant)
    } else {
        None
    }
}

/// Whether `row` is the text of one rank of a placement.
pub fn check_row(row: &Vec<char>) -> (valid: bool)
    ensures
        valid == row_valid(row@),
{
    let mut width: u8 = 0;
    let mut after_digit = false;
    let mut j: usize = 0;
    while j < row.len()
        invariant
            j <= row.len(),
            width == least(row_cells(row@.take(j as int)).len() as int, 9),
            after_digit == (j > 0 && is_digit(row@[j - 1])),
            forall|i: int| 0 <= i < j ==> glyph_valid(#[trigger] row@[i]),
            forall|i: int|
                #![trigger row@[i]]
                0 < i < j ==> !(is_digit(row@[i - 1]) && is_digit(row@[i])),
        decreases row.len() - j,
    {
        let c = row[j];
        proof {
            assert(row@.take(j + 1).drop_last() == row@.take(j as int));
        }
        if '1' <= c && c <= '8' {
            if after_digit {
                return false;
            }
            let gap = (c as u32 - '0' as u32) as u8;
            width = if gap >= 9 - width {
                9
            } else {
                width + gap
            };
            after_digit = true;
        } else if Piece::from_glyph(c).is_ok() {
            if width < 9 {
                width = width + 1;
            }
            after_digit = false;
        } else {
            return false;
        }
        j = j + 1;
    }
    assert(row@.take(row.len() as int) == row@);
    width == 8
}

/// Whether `text` is a side-to-move field.
pub fn check_turn(text: &str) -> (valid: bool)
    ensures
        valid == turn_valid(text@),
{
    let chars = chars_of(text);
    chars.len() == 1 && (chars[0] == 'w' || chars[0] == 'b')
}

/// Whether `text` has the form of a castling field.
pub fn check_castling(text: &str) -> (valid: bool)
    ensures
        valid == castling_valid(text@),
{
    let chars = chars_of(text);
    if chars.len() == 1 && chars[0] == '-' {
        return true;
    }
    if chars.len() < 1 || chars.len() > 4 {
        return false;
    }
    let mut i: usize = 0;
    while i < chars.len()
        invariant
            i <= chars.len(),
            chars@ == text@,
            1 <= chars.len() <= 4,
            !(chars.len() == 1 && chars@[0] == '-'),
            forall|k: int| 0 <= k < i ==> is_castling_letter(#[trigger] chars@[k]),
        decreases chars.len() - i,
    {
        let c = chars[i];
        if !(c == 'K' || c == 'Q' || c == 'k' || c == 'q') {
            assert(!is_castling_letter(text@[i as int]));
            return false;
        }
        i = i + 1;
    }
    true
}

/// Whether `text` is an en-passant field.
pub fn check_passant(text: &str) -> (valid: bool)
    ensures
        valid == passant_valid(text@),
{
    let chars = chars_of(text);
    if chars.len() == 1 {
        chars[0] == '-'
    } else if chars.len() == 2 {
        'a' <= chars[0] && chars[0] <= 'h' && '1' <= chars[1] && chars[1] <= '8'
    } else {
        false
    }
}

/// Checks the four fields of a record that describe a position.
pub fn check_fields(placement: &str, turn: &str, castling: &str, en_passant: &str) -> (found:
    Result<(), ParseError>)
    ensures
        found == match fields_error(
            FenFieldsView {
                placement: placement@,
                turn: turn@,
                castling: castling@,
                en_passant: en_passant@,
            },
        ) {
            Some(e) => Err::<(), ParseError>(e),
            None => Ok(()),
        },
{
    let text = chars_of(placement);
    let rows = split_at_slashes(&text);
    if rows.len() != 8 {
        return Err(ParseError::RankCount);
    }
    let mut i: usize = 0;
    while i < 8
        invariant
            i <= 8,
            rows.len() == 8,
            rows_view(rows@) == split_rows(placement@),
            forall|k: int| 0 <= k < i ==> row_valid(#[trigger] split_rows(placement@)[k]),
        decreases 8 - i,
    {
        if !check_row(&rows[i]) {
            assert(!row_valid(split_rows(placement@)[i as int]));
            return Err(ParseError::BadRank);
        }
        i = i + 1;
    }
    if !check_turn(turn) {
        return Err(ParseError::BadTurn);
    }
    if !check_castling(castling) {
        return Err(ParseError::BadCastling);
    }
    if !unique_chars(castling) {
        return Err(ParseError::DuplicateCastling);
    }
    if !check_passant(en_passant) {
        return Err(ParseError::BadEnPassant);
    }
    Ok(())
}

/// Whether no character occurs twice in `text`.
pub fn unique_chars(text: &str) -> (unique: bool)
    ensures
        unique == text@.no_duplicates(),
{
    let chars = chars_of(text);
    let mut i: usize = 0;
    while i < chars.len()
        invariant
            i <= chars.len(),
            chars@ == text@,
            forall|a: int, b: int| 0 <= a < b < i ==> chars@[a] != chars@[b],
        decreases chars.len() - i,
    {
        let mut k: usize = 0;
        while k < i
            invariant
                k <= i,
                i < chars.len(),
                chars@ == text@,
                forall|a: int| 0 <= a < k ==> chars@[a] != chars@[i as int],
            decreases i - k,
        {
            if chars[k] == chars[i] {
                return false;
            }
            k = k + 1;
        }
        i = i + 1;
    }
    true
}

/// Whether the side-to-move field `text` names White: it is the one letter
/// `w`. Any other text names Black.
pub open spec fn turn_is_white(text: Seq<char>) -> bool {
    text.len() == 1 && text[0] == 'w'
}

/// The castling rights that the field `text` grants: each of the letters
/// `K`, `Q`, `k`, `q` grants its right where it occurs. Other characters
/// grant nothing.
pub open spec fn rights_of(text: Seq<char>) -> CastlingRights {
    CastlingRights {
        white_king_side: text.contains('K'),
        white_queen_side: text.contains('Q'),
        black_king_side: text.contains('k'),
        black_queen_side: text.contains('q'),
    }
}

/// The square that the en-passant field `text` names: a file letter and a
/// rank digit from 1 to 8 name their square, whatever follows them. Any other
/// text, `-` among them, names none.
pub open spec fn passant_of(text: Seq<char>) -> Option<u8> {
    if text.len() >= 2 {
        square_of_name(text.take(2))
    } else {
        None
    }
}

/// The side-to-move field of a position.
pub open spec fn turn_text(white_turn: bool) -> Seq<char> {
    if white_turn {
        seq!['w']
    } else {
        seq!['b']
    }
}

/// `letter` where `granted` holds, and nothing otherwise.
pub open spec fn letter_if(granted: bool, letter: char) -> Seq<char> {
    if granted {
        seq![letter]
    } else {
        Seq::empty()
    }
}

/// The castling field of a position: the letters of the rights that are
/// granted, in the order `KQkq`, or `-` where none is.
pub open spec fn castles_text(rights: CastlingRights) -> Seq<char> {
    let letters = letter_if(rights.white_king_side, 'K') + letter_if(rights.white_queen_side, 'Q')
        + letter_if(rights.black_king_side, 'k') + letter_if(rights.black_queen_side, 'q');
    if letters.len() == 0 {
        seq!['-']
    } else {
        letters
    }
}

/// The en-passant field of a position: the name of the square, or `-` where
/// there is none on the board.
pub open spec fn passant_text(en_passant: Option<u8>) -> Seq<char> {
    match en_passant {
        Some(square) => name_of_square(square),
        None => seq!['-'],
    }
}

/// The digit for a run of `empties` empty squares, and nothing for no run.
pub open spec fn gap_text(empties: int) -> Seq<char> {
    if empties > 0 {
        seq![('0' as int + empties) as char]
    } else {
        Seq::empty()
    }
}

/// The text of one rank from `file` on, after a run of `empties` empty
/// squares that has not been written yet.
pub open spec fn rank_text(board: Chessboard, rank: int, file: int, empties: int) -> Seq<char>
    decreases 8 - file,
{
    if file >= 8 {
        gap_text(empties)
    } else {
        match board.piece_at(rank, file) {
            Some(piece) => gap_text(empties) + seq![piece.glyph_of()] + rank_text(
                board,
                rank,
                file + 1,
                0,
            ),
            None => rank_text(board, rank, file + 1, empties + 1),
        }
    }
}

/// The texts of the eight ranks of a position, the eighth rank first.
pub open spec fn rank_rows(board: Chessboard) -> Seq<Seq<char>> {
    Seq::new(8, |i: int| rank_text(board, 7 - i, 0, 0))
}

/// The parts `rows` with a `/` between each two neighbours.
pub open spec fn join_rows(rows: Seq<Seq<char>>) -> Seq<char>
    decreases rows.len(),
{
    if rows.len() == 0 {
        Seq::empty()
    } else if rows.len() == 1 {
        rows[0]
    } else {
        join_rows(rows.drop_last()) + seq!['/'] + rows.last()
    }
}

/// The placement field of a position: the texts of its ranks, from the eighth
/// down to the first, with a `/` between them.
pub open spec fn placement_text(board: Chessboard) -> Seq<char> {
    join_rows(rank_rows(board))
}

/// The four fields of a record that describe a position, followed by the two
/// counters, which a position does not hold and which are written as `0 1`.
pub open spec fn fen_text(board: Chessboard) -> Seq<char> {
    placement_text(board) + seq![' '] + turn_text(board.white_turn) + seq![' '] + castles_text(
        board.castling_rights,
    ) + seq![' '] + passant_text(board.en_passant) + seq![' ', '0', ' ', '1']
}

/// Sets the side to move from the field `whose_turn`: White for `w`, Black
/// for any other text. The field is not checked here: `check_turn` tells
/// whether it is `w` or `b`.
pub fn parse_whose_turn(chessboard: &mut Chessboard, whose_turn: &str)
    ensures
        *final(chessboard) == (Chessboard {
            white_turn: turn_is_white(whose_turn@),
            ..*old(chessboard)
        }),
{
    let text = chars_of(whose_turn);
    chessboard.white_turn = text.len() == 1 && text[0] == 'w';
}

/// Sets the castling rights from the field `castle_rights`: each of the
/// letters `K`, `Q`, `k`, `q` grants its right where it occurs. The field is
/// not checked here: `check_castling` tells whether it holds anything else.
pub fn parse_castling_rights(chessboard: &mut Chessboard, castle_rights: &str)
    ensures
        *final(chessboard) == (Chessboard {
            castling_rights: rights_of(castle_rights@),
            ..*old(chessboard)
        }),
{
    let text = chars_of(castle_rights);
    let mut rights = CastlingRights {
        white_king_side: false,
        white_queen_side: false,
        black_king_side: false,
        black_queen_side: false,
    };
    let mut i: usize = 0;
    while i < text.len()
        invariant
            i <= text.len(),
            rights == rights_of(text@.take(i as int)),
        decreases text.len() - i,
    {
        let c = text[i];
        proof {
            let seen = text@.take(i as int);
            assert(text@.take(i + 1) == seen.push(c));
            assert forall|x: char|
                seen.push(c).contains(x) <==> (seen.contains(x) || x == c) by {
                lemma_seq_contains_after_push(seen, c, x);
            }
        }
        if c == 'K' {
            rights.white_king_side = true;
        } else if c == 'Q' {
            rights.white_queen_side = true;
        } else if c == 'k' {
            rights.black_king_side = true;
        } else if c == 'q' {
            rights.black_queen_side = true;
        }
        i = i + 1;
    }
    assert(text@.take(text.len() as int) == text@);
    chessboard.castling_rights = rights;
}

/// Sets the en-passant square from the field `en_passant`: the square that a
/// file letter and a rank digit name, or none for any other text. The field
/// is not checked here: `check_passant` tells whether it is `-` or the name
/// of a square.
pub fn parse_en_passant(chessboard: &mut Chessboard, en_passant: &str)
    ensures
        *final(chessboard) == (Chessboard {
            en_passant: passant_of(en_passant@),
            ..*old(chessboard)
        }),
        final(chessboard).en_passant matches Some(square) ==> square < 64,
{
    let text = chars_of(en_passant);
    let mut square: Option<u8> = None;
    if text.len() >= 2 {
        match (letter_to_file(text[0]), digit_to_rank(text[1])) {
            (Some(file), Some(rank)) => {
                square = Some(file + 8 * rank);
            },
            _ => {},
        }
    }
    chessboard.en_passant = square;
}

/// The castling field of `chessboard`.
pub fn get_fen_castles(chessboard: &Chessboard) -> (text: String)
    ensures
        text@ == castles_text(chessboard.castling_rights),
{
    let rights = chessboard.castling_rights;
    let mut text = String::new();
    if rights.white_king_side {
        push_char(&mut text, 'K');
    }
    if rights.white_queen_side {
        push_char(&mut text, 'Q');
    }
    if rights.black_king_side {
        push_char(&mut text, 'k');
    }
    if rights.black_queen_side {
        push_char(&mut text, 'q');
    }
    if !(rights.white_king_side || rights.white_queen_side || rights.black_king_side
        || rights.black_queen_side) {
        push_char(&mut text, '-');
    }
    text
}

/// The en-passant field of `chessboard`.
pub fn get_fen_passant(chessboard: &Chessboard) -> (text: String)
    ensures
        text@ == passant_text(chessboard.en_passant),
{
    match chessboard.en_passant {
        Some(square) => square_to_string(square),
        None => {
            let mut text = String::new();
            push_char(&mut text, '-');
            text
        },
    }
}

/// The placement field of `chessboard`.
pub fn get_fen_placement(chessboard: &Chessboard) -> (text: String)
    ensures
        text@ == placement_text(*chessboard),
{
    let mut text = String::new();
    let mut done: u8 = 0;
    while done < 8
        invariant
            done <= 8,
            text@ == join_rows(rank_rows(*chessboard).take(done as int)),
        decreases 8 - done,
    {
        let rank: u8 = 7 - done;
        if done > 0 {
            push_char(&mut text, '/');
        }
        let ghost start = text@;
        let mut empties: u8 = 0;
        let mut file: u8 = 0;
        while file < 8
            invariant
                rank < 8,
                empties <= file <= 8,
                text@ + rank_text(*chessboard, rank as int, file as int, empties as int) == start
                    + rank_text(*chessboard, rank as int, 0, 0),
            decreases 8 - file,
        {
            match chessboard.piece_at_position(rank * 8 + file) {
                Some(piece) => {
                    if empties > 0 {
                        push_char(&mut text, (48u8 + empties) as char);
                        empties = 0;
                    }
                    push_char(&mut text, piece.glyph());
                },
                None => {
                    empties = empties + 1;
                },
            }
            file = file + 1;
        }
        if empties > 0 {
            push_char(&mut text, (48u8 + empties) as char);
        }
        proof {
            let rows = rank_rows(*chessboard);
            let row = rank_text(*chessboard, rank as int, 0, 0);
            assert(text@ == start + row);
            assert(rows.take(done + 1).drop_last() == rows.take(done as int));
        }
        done = done + 1;
    }
    assert(rank_rows(*chessboard).take(8) == rank_rows(*chessboard));
    text
}

/// The form of a record: six fields with one white-space character between
/// them. The groups of the pattern are, by number: 1 the placement, eight
/// ranks of piece letters and digits from 1 to 8; 3 the side to move, `w` or
/// `b`; 4 the castling rights, `-` or one to four letters of `KQkq`; 5 the
/// en-passant square, `-` or a file letter and a rank digit; 6 the two
/// counters.
pub const FEN_PATTERN: &'static str =
    r"^\s*^(((?:[rnbqkpRNBQKP1-8]+\/){7})[rnbqkpRNBQKP1-8]+)\s([bw])\s(-|[KQkq]{1,4})\s(-|[a-h][1-8])\s(\d+\s\d+)$";

/// The capture groups of the first match of the regular expression `pattern`
/// in `haystack`, as the regex crate finds them: group 0 is the whole match,
/// and a group that took no part in the match is `None`. The result is `None`
/// where `pattern` is no regular expression or matches nowhere.
pub uninterp spec fn regex_groups(pattern: Seq<char>, haystack: Seq<char>) -> Option<
    Seq<Option<Seq<char>>>,
>;

/// Matches a regular expression against a text.
///
/// Calls `Regex::new` and `Regex::captures` of the regex crate and copies the
/// text of each group out of the match. Nothing is claimed of what matches:
/// the contract only gives the result its name, `regex_groups`, which says
/// that the same pattern and text always give the same groups.
#[verifier::external_body]
fn regex_captures(pattern: &str, haystack: &str) -> (groups: Option<Vec<Option<String>>>)
    ensures
        groups.deep_view() == regex_groups(pattern@, haystack@),
{
    let compiled = match Regex::new(pattern) {
        Ok(compiled) => compiled,
        Err(_) => { return None; },
    };
    let found = compiled.captures(haystack)?;
    Some(found.iter().map(|group| group.map(|m| m.as_str().to_string())).collect())
}

/// The fields of a record that describe a position.
#[derive(Debug, PartialEq, Eq)]
pub struct FenFields {
    pub placement: String,
    pub turn: String,
    pub castling: String,
    pub en_passant: String,
}

/// The fields of a record as sequences of characters.
pub struct FenFieldsView {
    pub placement: Seq<char>,
    pub turn: Seq<char>,
    pub castling: Seq<char>,
    pub en_passant: Seq<char>,
}

impl DeepView for FenFields {
    type V = FenFieldsView;

    open spec fn deep_view(&self) -> FenFieldsView {
        FenFieldsView {
            placement: self.placement@,
            turn: self.turn@,
            castling: self.castling@,
            en_passant: self.en_passant@,
        }
    }
}

/// The fields that the groups of a match of `FEN_PATTERN` hold: groups 1, 3,
/// 4 and 5 of seven, where each of them took part in the match.
pub open spec fn fields_of_groups(groups: Option<Seq<Option<Seq<char>>>>) -> Option<
    FenFieldsView,
> {
    match groups {
        Some(list) => {
            if list.len() == 7 && list[1] is Some && list[3] is Some && list[4] is Some
                && list[5] is Some {
                Some(
                    FenFieldsView {
                        placement: list[1].unwrap(),
                        turn: list[3].unwrap(),
                        castling: list[4].unwrap(),
                        en_passant: list[5].unwrap(),
                    },
                )
            } else {
                None
            }
        },
        None => None,
    }
}

/// The fields of the record `fen`, where it has the form of a record.
pub open spec fn fen_fields(fen: Seq<char>) -> Option<FenFieldsView> {
    fields_of_groups(regex_groups(FEN_PATTERN@, fen))
}

/// Whether `fen` is a record of a position: it has the form of a record, and
/// `fields_error` finds no fault in its fields.
pub open spec fn fen_valid(fen: Seq<char>) -> bool {
    match fen_fields(fen) {
        Some(fields) => fields_error(fields) is None,
        None => false,
    }
}

/// Picks the fields of a record out of the groups of a match of
/// `FEN_PATTERN`.
pub fn pick_fields(groups: Option<Vec<Option<String>>>) -> (fields: Option<FenFields>)
    ensures
        fields.deep_view() == fields_of_groups(groups.deep_view()),
{
    let list = match groups {
        Some(list) => list,
        None => { return None; },
    };
    if list.len() != 7 {
        return None;
    }
    match (&list[1], &list[3], &list[4], &list[5]) {
        (Some(placement), Some(turn), Some(castling), Some(en_passant)) => Some(
            FenFields {
                placement: placement.clone(),
                turn: turn.clone(),
                castling: castling.clone(),
                en_passant: en_passant.clone(),
            },
        ),
        _ => None,
    }
}

/// Splits the record `fen` into its fields, or gives `None` where it does not
/// have the form of a record.
pub fn split_record(fen: &str) -> (fields: Option<FenFields>)
    ensures
        fields.deep_view() == fen_fields(fen@),
{
    pick_fields(regex_captures(FEN_PATTERN, fen))
}

/// Whether `fen` is a record of a position.
pub fn valid_fen(fen: &str) -> (valid: bool)
    ensures
        valid == fen_valid(fen@),
{
    match split_record(fen) {
        Some(fields) => check_fields(
            fields.placement.as_str(),
            fields.turn.as_str(),
            fields.castling.as_str(),
            fields.en_passant.as_str(),
        ).is_ok(),
        None => false,
    }
}

/// Whether `board` is the position that the four fields describe: its pieces
/// stand where the placement puts them, and the side to move, the castling
/// rights and the en-passant square are those of the other three fields.
pub open spec fn is_position_of(board: Chessboard, fields: FenFieldsView) -> bool {
    &&& forall|q: Piece, s: u8|
        #![trigger board.holds(q, s)]
        board.holds(q, s) <==> placement_cell(fields.placement, s) == Some(q)
    &&& board.white_turn == turn_is_white(fields.turn)
    &&& board.castling_rights == rights_of(fields.castling)
    &&& board.en_passant == passant_of(fields.en_passant)
}

/// What reading the four fields of a record gives: the error that
/// `fields_error` finds, or else a position that the fields describe.
pub open spec fn reads_as(outcome: Result<Chessboard, ParseError>, fields: FenFieldsView)
    -> bool {
    match fields_error(fields) {
        Some(e) => outcome == Err::<Chessboard, ParseError>(e),
        None => outcome matches Ok(board) && is_position_of(board, fields) && board.well_formed(),
    }
}

/// Reads a position from the four fields of a record that describe one.
pub fn read_fields(placement: &str, turn: &str, castling: &str, en_passant: &str) -> (outcome:
    Result<Chessboard, ParseError>)
    ensures
        reads_as(
            outcome,
            FenFieldsView {
                placement: placement@,
                turn: turn@,
                castling: castling@,
                en_passant: en_passant@,
            },
        ),
{
    match check_fields(placement, turn, castling, en_passant) {
        Err(e) => { return Err(e); },
        Ok(_) => {},
    }
    let mut board = Chessboard::empty();
    place_pieces(&mut board, placement);
    let ghost placed = board;
    parse_whose_turn(&mut board, turn);
    parse_castling_rights(&mut board, castling);
    parse_en_passant(&mut board, en_passant);
    proof {
        // The three fields that follow the placement leave the pieces alone.
        assert forall|q: Piece, s: u8| #[trigger]
            board.holds(q, s) == placed.holds(q, s) by {}
    }
    Ok(board)
}

/// Writes `board` as a record: its four fields, and `0 1` for the counters.
pub fn write_record(board: &Chessboard) -> (text: String)
    ensures
        text@ == fen_text(*board),
{
    let mut text = get_fen_placement(board);
    push_char(&mut text, ' ');
    push_char(&mut text, if board.white_turn { 'w' } else { 'b' });
    push_char(&mut text, ' ');
    text.append(get_fen_castles(board).as_str());
    push_char(&mut text, ' ');
    text.append(get_fen_passant(board).as_str());
    push_char(&mut text, ' ');
    push_char(&mut text, '0');
    push_char(&mut text, ' ');
    push_char(&mut text, '1');
    text
}

} // verus!
