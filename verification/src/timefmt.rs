//! Decimal and `mm:ss` rendering of second counts, used by the status
//! reporter and by the configuration file's duration fields.

use vstd::prelude::*;

verus! {

/// The character for one decimal digit value.
pub open spec fn digit_char(d: int) -> char {
    if d == 0 {
        '0'
    } else if d == 1 {
        '1'
    } else if d == 2 {
        '2'
    } else if d == 3 {
        '3'
    } else if d == 4 {
        '4'
    } else if d == 5 {
        '5'
    } else if d == 6 {
        '6'
    } else if d == 7 {
        '7'
    } else if d == 8 {
        '8'
    } else {
        '9'
    }
}

/// The decimal rendering of a non-negative integer, most significant
/// digit first, with no leading zeros (`0` renders as `"0"`).
pub open spec fn spec_dec_digits(n: int) -> Seq<char>
    decreases n,
{
    if n < 10 {
        seq![digit_char(n)]
    } else {
        spec_dec_digits(n / 10) + seq![digit_char(n % 10)]
    }
}

/// A component of an `mm:ss` rendering: two digits for values below
/// one hundred, the plain decimal rendering beyond.
pub open spec fn spec_pad2(n: int) -> Seq<char> {
    if n < 10 {
        seq!['0'] + spec_dec_digits(n)
    } else {
        spec_dec_digits(n)
    }
}

/// A second count rendered as `mm:ss`: whole minutes, a colon, then
/// the leftover seconds, each zero-padded to two digits.
pub open spec fn spec_mmss(seconds: int) -> Seq<char> {
    spec_pad2(seconds / 60) + seq![':'] + spec_pad2(seconds % 60)
}

/// The decimal rendering of `n`, as `spec_dec_digits` states it.
pub fn u64_to_dec(n: u64) -> (r: String)
    ensures
        r@ == spec_dec_digits(n as int),
    decreases n,
{
    let digit: &str = match n % 10 {
        0 => "0",
        1 => "1",
        2 => "2",
        3 => "3",
        4 => "4",
        5 => "5",
        6 => "6",
        7 => "7",
        8 => "8",
        _ => "9",
    };
    proof {
        reveal_strlit("0");
        reveal_strlit("1");
        reveal_strlit("2");
        reveal_strlit("3");
        reveal_strlit("4");
        reveal_strlit("5");
        reveal_strlit("6");
        reveal_strlit("7");
        reveal_strlit("8");
        reveal_strlit("9");
    }
    if n < 10 {
        assert(digit@ == seq![digit_char(n as int)]);
        digit.to_owned()
    } else {
        let mut prefix = u64_to_dec(n / 10);
        prefix.append(digit);
        assert(prefix@ == spec_dec_digits(n as int)) by {
            assert(digit@ == seq![digit_char(n as int % 10)]);
        }
        prefix
    }
}

/// `n` rendered as `spec_pad2` states: zero-padded to at least two digits.
pub fn u64_to_pad2(n: u64) -> (r: String)
    ensures
        r@ == spec_pad2(n as int),
{
    if n < 10 {
        let mut padded = String::from_str("0");
        proof {
            reveal_strlit("0");
        }
        let digits = u64_to_dec(n);
        padded.append(digits.as_str());
        padded
    } else {
        u64_to_dec(n)
    }
}

/// The ASCII byte for one decimal digit value.
pub open spec fn digit_byte(d: int) -> u8 {
    (48 + d) as u8
}

/// The decimal rendering of a non-negative integer as ASCII bytes,
/// most significant digit first, with no leading zeros.
pub open spec fn spec_dec_bytes(n: int) -> Seq<u8>
    decreases n,
{
    if n < 10 {
        seq![digit_byte(n)]
    } else {
        spec_dec_bytes(n / 10) + seq![digit_byte(n % 10)]
    }
}

/// The decimal rendering of `n` as ASCII bytes, as `spec_dec_bytes`
/// states it.
pub fn u64_to_dec_bytes(n: u64) -> (r: Vec<u8>)
    ensures
        r@ == spec_dec_bytes(n as int),
    decreases n,
{
    let digit: u8 = 48 + (n % 10) as u8;
    if n < 10 {
        let mut v: Vec<u8> = Vec::new();
        v.push(digit);
        assert(v@ =~= spec_dec_bytes(n as int));
        v
    } else {
        let mut v = u64_to_dec_bytes(n / 10);
        v.push(digit);
        assert(v@ =~= spec_dec_bytes(n as int));
        v
    }
}

/// A second count rendered as `mm:ss`, zero-padding each side to two
/// digits; minute counts of one hundred or more keep all their digits.
pub fn as_time(seconds: u64) -> (r: String)
    ensures
        r@ == spec_mmss(seconds as int),
{
    let mut out = u64_to_pad2(seconds / 60);
    out.append(":");
    proof {
        reveal_strlit(":");
    }
    let right = u64_to_pad2(seconds % 60);
    out.append(right.as_str());
    assert(out@ == spec_mmss(seconds as int)) by {
        assert(":"@ == seq![':']);
    }
    out
}

/// The `mm:ss` rendering of a duration given in whole seconds; the same
/// text as `as_time` on every input.
pub fn from_duration_to_str(duration: u64) -> (r: String)
    ensures
        r@ == spec_mmss(duration as int),
{
    as_time(duration)
}

} // verus!
