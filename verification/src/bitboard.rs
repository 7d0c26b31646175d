//! Occupancy masks: one bit per square, bit `i` standing for square `i`
//! (a1 = 0, h1 = 7, a8 = 56, h8 = 63).

use vstd::prelude::*;

verus! {

/// The file (column) of a square: 0 for the a-file, 7 for the h-file.
pub open spec fn file_of(square: int) -> int {
    square % 8
}

/// The rank (row) of a square: 0 for the first rank, 7 for the eighth.
pub open spec fn rank_of(square: int) -> int {
    square / 8
}

/// Whether bit `square` of `mask` is set. No bit stands for a square off the
/// board, so the answer is `false` for `square >= 64`.
pub open spec fn has_bit(mask: u64, square: u8) -> bool {
    square < 64 && mask & (1u64 << (square as u64)) != 0
}

/// The file of `square`.
pub fn square_file(square: u8) -> (f: u8)
    ensures
        f == file_of(square as int),
        f < 8,
{
    square % 8
}

/// The rank of `square`.
pub fn square_rank(square: u8) -> (r: u8)
    ensures
        r == rank_of(square as int),
        square < 64 ==> r < 8,
{
    square / 8
}

/// Tests bit `square` of `mask`.
pub fn test_bit(mask: u64, square: u8) -> (b: bool)
    ensures
        b == has_bit(mask, square),
{
    square < 64 && mask & (1u64 << (square as u64)) != 0
}

/// `mask` with bit `square` set.
pub fn with_bit(mask: u64, square: u8) -> (m: u64)
    requires
        square < 64,
    ensures
        m == mask | (1u64 << (square as u64)),
        forall|s: u8| has_bit(m, s) == (s == square || has_bit(mask, s)),
{
    let m = mask | (1u64 << (square as u64));
    proof {
        assert forall|s: u8| has_bit(m, s) == (s == square || has_bit(mask, s)) by {
            lemma_bit_after_set(mask, square, s);
        }
    }
    m
}

/// `mask` with bit `square` cleared.
pub fn without_bit(mask: u64, square: u8) -> (m: u64)
    requires
        square < 64,
    ensures
        m == mask & !(1u64 << (square as u64)),
        forall|s: u8| has_bit(m, s) == (s != square && has_bit(mask, s)),
{
    let m = mask & !(1u64 << (square as u64));
    proof {
        assert forall|s: u8| has_bit(m, s) == (s != square && has_bit(mask, s)) by {
            lemma_bit_after_clear(mask, square, s);
        }
    }
    m
}

/// The empty mask holds no square.
pub proof fn lemma_bit_of_empty(s: u8)
    by (bit_vector)
    ensures
        !has_bit(0u64, s),
{
}

/// A square is in a union of two masks exactly when it is in one of them.
pub proof fn lemma_bit_of_union(a: u64, b: u64, s: u8)
    by (bit_vector)
    ensures
        has_bit(a | b, s) == (has_bit(a, s) || has_bit(b, s)),
{
}

/// Setting bit `t` adds square `t` and changes no other square.
pub proof fn lemma_bit_after_set(mask: u64, t: u8, s: u8)
    by (bit_vector)
    requires
        t < 64,
    ensures
        has_bit(mask | (1u64 << (t as u64)), s) == (s == t || has_bit(mask, s)),
{
}

/// Clearing bit `t` removes square `t` and changes no other square.
pub proof fn lemma_bit_after_clear(mask: u64, t: u8, s: u8)
    by (bit_vector)
    requires
        t < 64,
    ensures
        has_bit(mask & !(1u64 << (t as u64)), s) == (s != t && has_bit(mask, s)),
{
}

} // verus!
