//! Positions in the write-ahead log.

use std::str::FromStr;
use vstd::prelude::*;

use crate::text::{digit_value, law_number_text_reads_back, number_text, unsigned_value};

verus! {

/// A log sequence number: a position in the write-ahead log.
#[derive(Clone, Copy, Debug, PartialEq, Eq, Structural)]
pub struct PgLsn {
    pub value: u64,
}

/// The text of a position: its upper and its lower half in hexadecimal, with a slash between.
pub open spec fn lsn_text(value: u64) -> Seq<char> {
    number_text((value >> 32) as nat, 16) + seq!['/'] + number_text(
        (value & 0xffff_ffff) as nat,
        16,
    )
}

/// The position that a text stands for: two hexadecimal numbers that fit 64 bits, around the
/// first slash. The first is moved up by 32 bits, and the bits of both are joined.
pub open spec fn lsn_value(text: Seq<char>) -> Option<u64> {
    match text.index_of_first('/') {
        None => None,
        Some(at) => {
            let upper = unsigned_value(text.take(at), 16, u64::MAX as nat);
            let lower = unsigned_value(text.skip(at + 1), 16, u64::MAX as nat);
            match (upper, lower) {
                (Some(upper), Some(lower)) => Some(((upper as u64) << 32) | (lower as u64)),
                _ => None,
            }
        },
    }
}

/// Calls `tokio_postgres::types::PgLsn::from_str`.
///
/// The contract says which texts it accepts and what position it makes of each: it splits at
/// the first slash, reads both parts as hexadecimal `u64`, and joins them.
#[verifier::external_body]
fn read_lsn(text: &str) -> (r: Option<u64>)
    ensures
        r == lsn_value(text@),
{
    match tokio_postgres::types::PgLsn::from_str(text) {
        Ok(lsn) => Some(u64::from(lsn)),
        Err(_) => None,
    }
}

/// Calls the `Display` of `tokio_postgres::types::PgLsn`.
///
/// The contract says what it writes: the upper and the lower 32 bits in upper-case hexadecimal
/// without leading zeros, and a slash between them.
#[verifier::external_body]
fn write_lsn(value: u64) -> (r: String)
    ensures
        r@ == lsn_text(value),
{
    format!("{}", tokio_postgres::types::PgLsn::from(value))
}

impl PgLsn {
    /// Reads a position from its text.
    pub fn parse(text: &str) -> (r: Option<PgLsn>)
        ensures
            match lsn_value(text@) {
                Some(value) => r == Some(PgLsn { value }),
                None => r is None,
            },
    {
        match read_lsn(text) {
            Some(value) => Some(PgLsn { value }),
            None => None,
        }
    }

    /// Writes a position as text.
    pub fn to_text(&self) -> (r: String)
        ensures
            r@ == lsn_text(self.value),
    {
        write_lsn(self.value)
    }
}

impl From<u64> for PgLsn {
    fn from(value: u64) -> (r: PgLsn) {
        PgLsn { value }
    }
}

impl vstd::std_specs::convert::FromSpecImpl<u64> for PgLsn {
    open spec fn obeys_from_spec() -> bool {
        true
    }

    open spec fn from_spec(value: u64) -> PgLsn {
        PgLsn { value }
    }
}

/// A position that was written as text is read as the position that it was.
pub proof fn law_lsn_text_reads_back(value: u64)
    ensures
        lsn_value(lsn_text(value)) == Some(value),
{
    let upper = value >> 32;
    let lower = value & 0xffff_ffff;
    let high = number_text(upper as nat, 16);
    let low = number_text(lower as nat, 16);
    let text = lsn_text(value);
    law_number_text_reads_back(upper as nat, 16);
    law_number_text_reads_back(lower as nat, 16);
    assert(digit_value('/', 16) is None);
    assert(digit_value('+', 16) is None);
    assert(text[high.len() as int] == '/');
    assert(text.index_of_first('/') == Some(high.len() as int)) by {
        text.index_of_first_ensures('/');
        let at = text.index_of_first('/')->0;
        assert(text.contains('/'));
        if at < high.len() {
            assert(digit_value(high[at], 16) is Some);
        }
    }
    assert(text.take(high.len() as int) == high);
    assert(text.skip(high.len() as int + 1) == low);
    assert(digit_value(high[0], 16) is Some);
    assert(digit_value(low[0], 16) is Some);
    assert(((value >> 32) << 32) | (value & 0xffff_ffff) == value) by (bit_vector);
}

/// A position counts its upper number in steps of two to the power of 32, and is written as its
/// two numbers in hexadecimal with a slash between.
pub proof fn law_lsn_parts(upper: u32, lower: u32, value: u64)
    requires
        value == upper * 0x1_0000_0000 + lower,
    ensures
        lsn_text(value) == number_text(upper as nat, 16) + seq!['/'] + number_text(
            lower as nat,
            16,
        ),
        lsn_value(
            number_text(upper as nat, 16) + seq!['/'] + number_text(lower as nat, 16),
        ) == Some(value),
{
    assert((value >> 32) == upper && (value & 0xffff_ffff) == lower) by (bit_vector)
        requires
            value == upper * 0x1_0000_0000 + lower,
    ;
    law_lsn_text_reads_back(value);
}

/// A text without a slash is no position; one with a slash is a position exactly where both of
/// its sides, parted at the first slash, are hexadecimal numbers.
pub proof fn law_lsn_needs_two_numbers(text: Seq<char>, upper: Seq<char>, lower: Seq<char>)
    ensures
        !text.contains('/') ==> lsn_value(text) is None,
        !upper.contains('/') ==> (lsn_value(upper + seq!['/'] + lower) is Some
            <==> unsigned_value(upper, 16, u64::MAX as nat) is Some && unsigned_value(
            lower,
            16,
            u64::MAX as nat,
        ) is Some),
{
    text.index_of_first_ensures('/');
    if !upper.contains('/') {
        let joined = upper + seq!['/'] + lower;
        joined.index_of_first_ensures('/');
        assert(joined[upper.len() as int] == '/');
        assert(joined.contains('/'));
        let at = joined.index_of_first('/')->0;
        if at < upper.len() {
            assert(joined[at] == upper[at]);
            assert(upper.contains('/'));
        }
        assert(at == upper.len());
        assert(joined.take(at) == upper);
        assert(joined.skip(at + 1) == lower);
    }
}

} // verus!
