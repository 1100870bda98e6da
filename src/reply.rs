//! The loosely typed reply of the key-value store, and the coercion of a
//! single reply element to an integer.

use vstd::prelude::*;

verus! {

/// A reply of the key-value store: an integer, nil, a byte string, an
/// ordered sequence of replies, or a status line (text that can name a field
/// but stands for no number).
#[derive(Debug)]
pub enum Reply {
    Nil,
    Int(i64),
    Data(Vec<u8>),
    Bulk(Vec<Reply>),
    Status(Vec<u8>),
}

/// Why a reply could not be decoded.
#[derive(Clone, Copy, Debug, PartialEq, Eq, Structural)]
pub enum DecodeError {
    /// The reply is not of the kind the record is read from.
    TypeMismatch,
    /// The reply is of the right kind, but its elements do not form the record.
    ShapeMismatch,
}

/// Whether `b` is an ASCII decimal digit.
pub open spec fn is_digit(b: u8) -> bool {
    48 <= b <= 57
}

/// Whether `d` is made of ASCII decimal digits only.
pub open spec fn all_digits(d: Seq<u8>) -> bool {
    forall|i: int| 0 <= i < d.len() ==> is_digit(#[trigger] d[i])
}

/// The value of the decimal numeral `d`, most significant digit first.
pub open spec fn digits_value(d: Seq<u8>) -> nat
    decreases d.len(),
{
    if d.len() == 0 {
        0
    } else {
        digits_value(d.drop_last()) * 10 + (d.last() - 48) as nat
    }
}

/// The magnitude that a numeral of sign `negative` may reach in an `i64`.
pub open spec fn magnitude_limit(negative: bool) -> nat {
    if negative {
        0x8000_0000_0000_0000
    } else {
        0x7fff_ffff_ffff_ffff
    }
}

/// Whether the text `b` starts with a minus sign.
pub open spec fn is_negative(b: Seq<u8>) -> bool {
    b.len() > 0 && b[0] == 45u8
}

/// The digits of the text `b`: what follows its sign, if it has one.
pub open spec fn numeral_digits(b: Seq<u8>) -> Seq<u8> {
    if b.len() > 0 && (b[0] == 45u8 || b[0] == 43u8) {
        b.skip(1)
    } else {
        b
    }
}

/// The `i64` that the text `b` denotes as a base-10 integer: an optional `+`
/// or `-`, then one or more ASCII digits, with a value in the range of `i64`.
/// Any other text denotes nothing.
pub open spec fn decimal_i64(b: Seq<u8>) -> Option<i64> {
    let d = numeral_digits(b);
    if d.len() == 0 || !all_digits(d) || digits_value(d) > magnitude_limit(is_negative(b)) {
        None
    } else if is_negative(b) {
        Some((-digits_value(d)) as i64)
    } else {
        Some(digits_value(d) as i64)
    }
}

/// The integer that a reply element stands for: an integer reply itself, or a
/// byte string that reads as a base-10 `i64`.
pub open spec fn int_of(v: Reply) -> Option<i64> {
    match v {
        Reply::Int(n) => Some(n),
        Reply::Data(b) => decimal_i64(b@),
        _ => None,
    }
}

proof fn lemma_digits_value_prefix(d: Seq<u8>, i: int)
    requires
        0 <= i <= d.len(),
    ensures
        digits_value(d.take(i)) <= digits_value(d),
    decreases d.len() - i,
{
    if i < d.len() {
        lemma_digits_value_prefix(d, i + 1);
        assert(d.take(i + 1).drop_last() =~= d.take(i));
    } else {
        assert(d.take(i) =~= d);
    }
}

/// Reads `b` as a base-10 `i64`, as `str::parse::<i64>` does.
pub fn parse_decimal_i64(b: &[u8]) -> (r: Option<i64>)
    ensures
        r == decimal_i64(b@),
{
    let n = b.len();
    if n == 0 {
        return None;
    }
    let negative = b[0] == 45u8;
    let start: usize = if b[0] == 45u8 || b[0] == 43u8 { 1 } else { 0 };
    let ghost d = b@.skip(start as int);
    assert(d == numeral_digits(b@));
    assert(negative == is_negative(b@));
    if start == n {
        return None;
    }
    let limit: u128 = if negative { 0x8000_0000_0000_0000 } else { 0x7fff_ffff_ffff_ffff };
    let mut acc: u128 = 0;
    let mut i: usize = start;
    while i < n
        invariant
            start <= i <= n,
            n == b@.len(),
            d == b@.skip(start as int),
            limit == magnitude_limit(negative),
            d == numeral_digits(b@),
            negative == is_negative(b@),
            all_digits(d.take(i - start)),
            acc == digits_value(d.take(i - start)),
            acc <= limit,
        decreases n - i,
    {
        let c = b[i];
        if c < 48u8 || c > 57u8 {
            assert(!is_digit(d[i - start]));
            return None;
        }
        proof {
            assert(d.take(i - start + 1).drop_last() =~= d.take(i - start));
            assert(d.take(i - start + 1).last() == c);
            assert(digits_value(d.take(i - start + 1)) == acc * 10 + (c - 48u8));
        }
        acc = acc * 10 + (c - 48u8) as u128;
        i = i + 1;
        if acc > limit {
            proof {
                lemma_digits_value_prefix(d, i - start);
                assert(digits_value(d) > magnitude_limit(negative));
            }
            return None;
        }
    }
    proof {
        assert(d.take(i - start) =~= d);
        assert(all_digits(d));
    }
    if negative {
        if acc == limit {
            Some(-9223372036854775807i64 - 1)
        } else {
            Some(-(acc as i64))
        }
    } else {
        Some(acc as i64)
    }
}

/// Coerces a reply element to an integer: an integer reply is taken as it
/// is, a byte string is read as a base-10 `i64`; anything else has none.
pub fn try_get_int(v: &Reply) -> (r: Option<i64>)
    ensures
        r == int_of(*v),
{
    match v {
        Reply::Int(n) => Some(*n),
        Reply::Data(b) => parse_decimal_i64(b.as_slice()),
        _ => None,
    }
}

} // verus!
