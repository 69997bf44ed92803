//! Doubles in JSON, from their bit patterns and their decimals.

use vstd::prelude::*;
use vstd::string::*;

use crate::search;

verus! {

/// The bit pattern is that of a finite double: not all bits of the exponent are set.
pub open spec fn is_finite(bits: u64) -> bool {
    bits / 0x10_0000_0000_0000 % 2048 != 2047
}

/// `n` zeros.
pub open spec fn zeros(n: nat) -> Seq<char> {
    Seq::new(n, |i: int| '0')
}

/// A decimal cut off behind its sixth decimal place, and filled up to there with zeros.
pub open spec fn six_decimals(decimal: Seq<char>) -> Seq<char> {
    match search::find_from(decimal, seq!['.'], 0) {
        None => decimal + seq!['.'] + zeros(6),
        Some(i) => if decimal.len() >= i + 7 {
            decimal.take(i + 7)
        } else {
            decimal + zeros((i + 7 - decimal.len()) as nat)
        },
    }
}

/// A double in JSON, which has no form for those that are not finite. `decimal` is the
/// shortest decimal that reads back as the double, without exponent.
pub open spec fn json_number(bits: u64, decimal: Seq<char>) -> Seq<char> {
    if is_finite(bits) {
        six_decimals(decimal)
    } else {
        "null"@
    }
}

/// Appends `n` zeros.
fn push_zeros(out: &mut String, n: usize)
    ensures
        final(out)@ == old(out)@ + zeros(n as nat),
{
    let ghost start = out@;
    let mut i: usize = 0;
    assert(out@ =~= start + zeros(0));
    while i < n
        invariant
            i <= n,
            out@ == start + zeros(i as nat),
        decreases n - i,
    {
        out.push('0');
        i = i + 1;
        assert(out@ =~= start + zeros(i as nat));
    }
}

/// Appends a decimal, cut off or filled up to six decimal places.
pub fn push_six_decimals(out: &mut String, decimal: &str)
    ensures
        final(out)@ == old(out)@ + six_decimals(decimal@),
{
    let chars = search::chars_of(decimal);
    let point: [char; 1] = ['.'];
    assert(point@ =~= seq!['.']);
    let ghost start = out@;
    match search::find(&chars, &point) {
        None => {
            out.append(decimal);
            out.push('.');
            push_zeros(out, 6);
            assert(out@ =~= start + six_decimals(decimal@));
        },
        Some(i) => {
            let places: usize = chars.len() - i - 1;
            if places >= 6 {
                assert(decimal@.subrange(0, i + 7) =~= decimal@.take(i + 7));
                out.append(decimal.substring_char(0, i + 7));
            } else {
                out.append(decimal);
                push_zeros(out, 6 - places);
                assert(out@ =~= start + six_decimals(decimal@));
            }
        },
    }
}

/// Appends a double in JSON that is written out as a decimal already.
pub fn push_json_number(out: &mut String, bits: u64, decimal: &str)
    ensures
        final(out)@ == old(out)@ + json_number(bits, decimal@),
{
    if bits / 0x10_0000_0000_0000 % 2048 != 2047 {
        push_six_decimals(out, decimal);
    } else {
        out.append("null");
    }
}

} // verus!
