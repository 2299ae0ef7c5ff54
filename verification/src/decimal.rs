//! Decimal rendering of the integers that appear in diagnostics: row and
//! column numbers, and integer literal values.

use vstd::prelude::*;

use crate::strbuild::push_char;

verus! {

/// The character for one decimal digit value.
pub open spec fn digit_char(d: nat) -> char
    recommends
        d < 10,
{
    (48 + d) as char
}

/// The decimal digits of `n`, most significant first, with no sign and no
/// leading zeros (except for `n == 0`, rendered as one `'0'`).
pub open spec fn dec_digits(n: nat) -> Seq<char>
    decreases n,
{
    if n < 10 {
        seq![digit_char(n)]
    } else {
        dec_digits(n / 10).push(digit_char(n % 10))
    }
}

/// The decimal rendering of an integer: a minus sign for negative values,
/// then the digits of the absolute value.
pub open spec fn dec_int(v: int) -> Seq<char> {
    if v < 0 {
        seq!['-'] + dec_digits((-v) as nat)
    } else {
        dec_digits(v as nat)
    }
}

/// Appends the decimal digits of `n` to `out`.
fn push_dec_u64(out: &mut String, n: u64)
    ensures
        final(out)@ == old(out)@ + dec_digits(n as nat),
    decreases n,
{
    if n < 10 {
        let c: char = (48 + n as u8) as char;
        push_char(out, c);
        proof {
            assert(out@ =~= old(out)@ + dec_digits(n as nat));
        }
    } else {
        push_dec_u64(out, n / 10);
        let c: char = (48 + (n % 10) as u8) as char;
        push_char(out, c);
        proof {
            assert(out@ =~= old(out)@ + dec_digits(n as nat));
        }
    }
}

/// The decimal rendering of a row or column number.
pub fn u32_decimal(n: u32) -> (s: String)
    ensures
        s@ == dec_digits(n as nat),
{
    let mut out = String::new();
    push_dec_u64(&mut out, n as u64);
    proof {
        assert(out@ =~= dec_digits(n as nat));
    }
    out
}

/// The decimal rendering of an integer literal value.
pub fn isize_decimal(v: isize) -> (s: String)
    ensures
        s@ == dec_int(v as int),
{
    let mut out = String::new();
    if v < 0 {
        let mag: u64 = (-(v as i128)) as u64;
        proof {
            assert(mag as int == -(v as int));
        }
        push_char(&mut out, '-');
        push_dec_u64(&mut out, mag);
        proof {
            assert(out@ =~= dec_int(v as int));
        }
    } else {
        push_dec_u64(&mut out, v as u64);
        proof {
            assert(out@ =~= dec_int(v as int));
        }
    }
    out
}

} // verus!
