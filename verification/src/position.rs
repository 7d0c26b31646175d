//! The names of squares: a file letter from `a` to `h` and a rank digit from
//! `1` to `8`, as in `e4`.

use vstd::prelude::*;
use crate::bitboard::{file_of, rank_of};
use crate::error::ParseError;
use crate::text::{chars_of, push_char};

verus! {

/// The file that the letter `c` names, in either case: 0 for `a`, 7 for `h`.
pub open spec fn file_of_letter(c: char) -> Option<int> {
    if 'a' <= c && c <= 'h' {
        Some(c as int - 'a' as int)
    } else if 'A' <= c && c <= 'H' {
        Some(c as int - 'A' as int)
    } else {
        None
    }
}

/// The rank that the digit `c` names: 0 for `1`, 7 for `8`.
pub open spec fn rank_of_digit(c: char) -> Option<int> {
    if '1' <= c && c <= '8' {
        Some(c as int - '1' as int)
    } else {
        None
    }
}

/// The square that `text` names: exactly a file letter, in either case, and
/// a rank digit.
pub open spec fn square_of_name(text: Seq<char>) -> Option<u8> {
    if text.len() == 2 && file_of_letter(text[0]) is Some && rank_of_digit(text[1]) is Some {
        Some((file_of_letter(text[0]).unwrap() + 8 * rank_of_digit(text[1]).unwrap()) as u8)
    } else {
        None
    }
}

/// The name of `square`, with the file letter in lower case, or `-` where
/// `square` is not on the board.
pub open spec fn name_of_square(square: u8) -> Seq<char> {
    if square < 64 {
        seq![
            ('a' as int + file_of(square as int)) as char,
            ('1' as int + rank_of(square as int)) as char,
        ]
    } else {
        seq!['-']
    }
}

/// The file that the letter `c` names, if it names one.
pub fn letter_to_file(c: char) -> (file: Option<u8>)
    ensures
        match file_of_letter(c) {
            Some(f) => file == Some(f as u8) && f < 8,
            None => file is None,
        },
{
    if 'a' <= c && c <= 'h' {
        Some((c as u32 - 'a' as u32) as u8)
    } else if 'A' <= c && c <= 'H' {
        Some((c as u32 - 'A' as u32) as u8)
    } else {
        None
    }
}

/// The rank that the digit `c` names, if it names one.
pub fn digit_to_rank(c: char) -> (rank: Option<u8>)
    ensures
        match rank_of_digit(c) {
            Some(r) => rank == Some(r as u8) && r < 8,
            None => rank is None,
        },
{
    if '1' <= c && c <= '8' {
        Some((c as u32 - '1' as u32) as u8)
    } else {
        None
    }
}

/// Reads the name of a square.
pub fn string_to_square(text: &str) -> (outcome: Result<u8, ParseError>)
    ensures
        outcome == match square_of_name(text@) {
            Some(square) => Ok::<u8, ParseError>(square),
            None => Err(ParseError::BadSquare),
        },
        outcome matches Ok(square) ==> square < 64,
{
    let chars = chars_of(text);
    if chars.len() != 2 {
        return Err(ParseError::BadSquare);
    }
    match (letter_to_file(chars[0]), digit_to_rank(chars[1])) {
        (Some(file), Some(rank)) => Ok(file + 8 * rank),
        _ => Err(ParseError::BadSquare),
    }
}

/// Writes the name of a square.
pub fn square_to_string(square: u8) -> (text: String)
    ensures
        text@ == name_of_square(square),
{
    let mut text = String::new();
    if square < 64 {
        push_char(&mut text, (97u8 + square % 8) as char);
        push_char(&mut text, (49u8 + square / 8) as char);
    } else {
        push_char(&mut text, '-');
    }
    text
}

/// The destinations in `moves`, or none where there is no list.
pub fn active_squares(moves: Option<Vec<u8>>) -> (squares: Vec<u8>)
    ensures
        squares@ == match moves {
            Some(list) => list@,
            None => Seq::empty(),
        },
{
    match moves {
        Some(list) => list,
        None => Vec::new(),
    }
}

/// The name of a square of the board reads as that square.
pub proof fn lemma_name_round_trip(square: u8)
    requires
        square < 64,
    ensures
        square_of_name(name_of_square(square)) == Some(square),
{
}

} // verus!
