//! Ranks: how measured quantities reach the decisions of this library.
//!
//! The library never computes with a quantity; it only asks which of two
//! quantities is the larger, or on which side of zero one lies. A quantity is
//! therefore handed over as its rank, an `i64` that is ordered as the
//! quantities themselves are and is zero exactly for the quantity zero.
//!
//! A caller that measures in IEEE 754 double precision turns the 64-bit
//! pattern of a number into its rank with [`from_bits`] and a rank back into a
//! pattern with [`to_bits`].

use vstd::prelude::*;

verus! {

/// The rank of positive infinity. Its negation is the rank of negative
/// infinity, and every rank of a number lies between the two.
pub const INFINITE: i64 = 0x7FF0_0000_0000_0000;

/// The first pattern with the sign bit set.
pub const SIGN: u64 = 0x8000_0000_0000_0000;

/// The number of values of the fraction field: a pattern counts its fraction
/// in units of one and its exponent in units of `FRACTION`.
pub const FRACTION: u64 = 0x0010_0000_0000_0000;

/// Whether the sign bit of the pattern is set.
pub open spec fn is_negative(bits: u64) -> bool {
    bits >= SIGN
}

/// The pattern without its sign bit.
pub open spec fn magnitude(bits: u64) -> int {
    if bits >= SIGN {
        bits - SIGN
    } else {
        bits as int
    }
}

/// The exponent field of the pattern.
pub open spec fn exponent(bits: u64) -> int {
    magnitude(bits) / (FRACTION as int)
}

/// The fraction field of the pattern.
pub open spec fn fraction(bits: u64) -> int {
    magnitude(bits) % (FRACTION as int)
}

/// Whether the pattern encodes a number, finite or infinite. The other
/// patterns, with all exponent bits set and a fraction that is not zero,
/// encode no number and have no rank.
pub open spec fn is_number(bits: u64) -> bool {
    magnitude(bits) <= INFINITE
}

/// The rank of a pattern: its magnitude, negated where the sign bit is set.
/// Both patterns of zero have rank zero.
pub open spec fn rank_of(bits: u64) -> int {
    if is_negative(bits) {
        -magnitude(bits)
    } else {
        magnitude(bits)
    }
}

/// Whether a rank is that of some number.
pub open spec fn is_rank(rank: int) -> bool {
    -INFINITE <= rank <= INFINITE
}

/// Whether a rank is that of positive or negative infinity.
pub open spec fn is_infinite_rank(rank: int) -> bool {
    rank == INFINITE || rank == -INFINITE
}

/// The pattern that [`to_bits`] gives for a rank: positive zero for rank
/// zero, and otherwise the one pattern with that rank.
pub open spec fn pattern_of(rank: int) -> int {
    if rank >= 0 {
        rank
    } else {
        SIGN - rank
    }
}

/// Whether the magnitude of `x` is below that of `y`, read off the two
/// fields: the smaller exponent decides, and between equal exponents the
/// smaller fraction.
pub open spec fn magnitude_below(x: u64, y: u64) -> bool {
    exponent(x) < exponent(y) || (exponent(x) == exponent(y) && fraction(x) < fraction(y))
}

/// Whether the number encoded by `x` is less than the number encoded by `y`,
/// read off sign, exponent and fraction. Negative zero is not less than
/// positive zero.
pub open spec fn number_below(x: u64, y: u64) -> bool {
    if is_negative(x) && is_negative(y) {
        magnitude_below(y, x)
    } else if is_negative(x) {
        magnitude(x) != 0 || magnitude(y) != 0
    } else if is_negative(y) {
        false
    } else {
        magnitude_below(x, y)
    }
}

/// The rank of the number with the given pattern, or `None` where the pattern
/// encodes no number.
pub fn from_bits(bits: u64) -> (rank: Option<i64>)
    ensures
        is_number(bits) ==> rank == Some(rank_of(bits) as i64),
        !is_number(bits) ==> rank.is_none(),
        rank matches Some(r) ==> is_rank(r as int),
{
    let negative = bits >= SIGN;
    let magnitude: u64 = if negative {
        bits - SIGN
    } else {
        bits
    };
    if magnitude > INFINITE as u64 {
        None
    } else if negative {
        Some(-(magnitude as i64))
    } else {
        Some(magnitude as i64)
    }
}

/// The pattern of the number with the given rank. Rank zero gives positive
/// zero.
pub fn to_bits(rank: i64) -> (bits: u64)
    requires
        is_rank(rank as int),
    ensures
        bits == pattern_of(rank as int),
        is_number(bits),
        rank_of(bits) == rank,
{
    if rank >= 0 {
        rank as u64
    } else {
        SIGN + ((-rank) as u64)
    }
}

/// Whether the rank is that of positive or negative infinity.
pub fn is_infinite(rank: i64) -> (r: bool)
    ensures
        r == is_infinite_rank(rank as int),
{
    rank == INFINITE || rank == -INFINITE
}

/// Magnitudes are ordered as their fields say: by the exponent, and between
/// equal exponents by the fraction.
pub proof fn lemma_fields_order_magnitudes(x: u64, y: u64)
    ensures
        magnitude_below(x, y) <==> magnitude(x) < magnitude(y),
{
    let mx = magnitude(x);
    let my = magnitude(y);
    let unit = FRACTION as int;
    assert(mx == unit * (mx / unit) + mx % unit);
    assert(my == unit * (my / unit) + my % unit);
    assert(0 <= mx % unit < unit);
    assert(0 <= my % unit < unit);
    if exponent(x) < exponent(y) {
        assert(unit * (mx / unit) + unit <= unit * (my / unit)) by (nonlinear_arith)
            requires
                mx / unit < my / unit,
                unit > 0,
        ;
    } else if exponent(y) < exponent(x) {
        assert(unit * (my / unit) + unit <= unit * (mx / unit)) by (nonlinear_arith)
            requires
                my / unit < mx / unit,
                unit > 0,
        ;
    }
}

/// Ranks are ordered as the numbers are: of two patterns that encode numbers,
/// the first encodes the lesser number exactly when it has the lesser rank.
pub proof fn lemma_rank_orders_numbers(x: u64, y: u64)
    requires
        is_number(x),
        is_number(y),
    ensures
        number_below(x, y) <==> rank_of(x) < rank_of(y),
{
    lemma_fields_order_magnitudes(x, y);
    lemma_fields_order_magnitudes(y, x);
}

/// Two patterns of numbers have the same rank exactly when they encode the
/// same number: when they are equal, or are the two patterns of zero.
pub proof fn lemma_rank_identifies_numbers(x: u64, y: u64)
    requires
        is_number(x),
        is_number(y),
    ensures
        rank_of(x) == rank_of(y) <==> (x == y || (magnitude(x) == 0 && magnitude(y) == 0)),
{
}

/// A rank survives the way through its pattern, and a pattern survives the
/// way through its rank unless it is negative zero, which comes back as
/// positive zero.
pub proof fn lemma_rank_round_trip(rank: int, bits: u64)
    requires
        is_rank(rank),
        is_number(bits),
    ensures
        rank_of(pattern_of(rank) as u64) == rank,
        bits != SIGN ==> pattern_of(rank_of(bits)) == bits,
        bits == SIGN ==> pattern_of(rank_of(bits)) == 0,
{
}

} // verus!
