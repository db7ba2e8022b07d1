//! Decimal text of unsigned integers, as ASCII bytes.
use vstd::prelude::*;

verus! {

/// The ASCII digit for `d`, for `d` below ten.
pub open spec fn digit_byte(d: nat) -> u8 {
    (48 + d) as u8
}

/// The decimal digits of `n` as ASCII bytes, most significant first, without
/// leading zeros; zero is the single digit `0`.
pub open spec fn decimal_digits(n: nat) -> Seq<u8>
    decreases n,
{
    if n < 10 {
        seq![digit_byte(n)]
    } else {
        decimal_digits(n / 10).push(digit_byte(n % 10))
    }
}

/// Writes `n` in decimal.
pub fn u128_to_decimal(n: u128) -> (out: Vec<u8>)
    ensures
        out@ == decimal_digits(n as nat),
{
    // Least significant digit first.
    let mut rev: Vec<u8> = Vec::new();
    let mut rest: u128 = n;
    while rest >= 10
        invariant
            decimal_digits(n as nat) == decimal_digits(rest as nat) + rev@.reverse(),
        decreases rest,
    {
        let d: u8 = (rest % 10) as u8;
        let ghost before = rev@;
        rev.push(48 + d);
        proof {
            assert(rev@.reverse() =~= seq![digit_byte((rest % 10) as nat)] + before.reverse());
            assert(decimal_digits(rest as nat) == decimal_digits((rest / 10) as nat).push(
                digit_byte((rest % 10) as nat),
            ));
        }
        rest = rest / 10;
    }
    let last: u8 = rest as u8;
    let ghost before = rev@;
    rev.push(48 + last);
    proof {
        assert(rev@.reverse() =~= seq![digit_byte(rest as nat)] + before.reverse());
    }
    let mut out: Vec<u8> = Vec::new();
    let mut i: usize = rev.len();
    while i > 0
        invariant
            i <= rev.len(),
            out@ == rev@.reverse().subrange(0, rev.len() - i),
        decreases i,
    {
        i = i - 1;
        out.push(rev[i]);
        assert(out@ =~= rev@.reverse().subrange(0, rev.len() - i));
    }
    assert(out@ =~= rev@.reverse());
    out
}

} // verus!
