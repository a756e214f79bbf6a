//! Decimal rendering of unsigned identifiers.
//!
//! Acknowledgement attributes carry numeric identifiers as decimal
//! strings; this module renders a `u64` that way and pins the result
//! down with a character-level specification.

use vstd::prelude::*;

verus! {

/// The decimal digit character for a value below ten.
pub open spec fn dec_digit(d: nat) -> char {
    if d == 0 {
        '0'
    } else if d == 1 {
        '1'
    } else if d == 2 {
        '2'
    } else if d == 3 {
        '3'
    } else if d == 4 {
        '4'
    } else if d == 5 {
        '5'
    } else if d == 6 {
        '6'
    } else if d == 7 {
        '7'
    } else if d == 8 {
        '8'
    } else {
        '9'
    }
}

/// The usual decimal rendering of `n`: no leading zeroes, and `"0"`
/// for zero itself.
pub open spec fn dec_chars(n: nat) -> Seq<char>
    decreases n,
{
    if n < 10 {
        seq![dec_digit(n)]
    } else {
        dec_chars(n / 10).push(dec_digit(n % 10))
    }
}

/// The reversed digit characters of a little-endian digit list.
spec fn rev_digit_chars(ds: Seq<u64>) -> Seq<char> {
    Seq::new(ds.len(), |i: int| dec_digit(ds[ds.len() - 1 - i] as nat))
}

/// Appends the digit character for `d` to `s`.
fn push_digit(s: &mut String, d: u64)
    requires
        d < 10,
    ensures
        final(s)@ == old(s)@.push(dec_digit(d as nat)),
{
    proof {
        reveal_strlit("0");
        reveal_strlit("1");
        reveal_strlit("2");
        reveal_strlit("3");
        reveal_strlit("4");
        reveal_strlit("5");
        reveal_strlit("6");
        reveal_strlit("7");
        reveal_strlit("8");
        reveal_strlit("9");
    }
    match d {
        0 => s.append("0"),
        1 => s.append("1"),
        2 => s.append("2"),
        3 => s.append("3"),
        4 => s.append("4"),
        5 => s.append("5"),
        6 => s.append("6"),
        7 => s.append("7"),
        8 => s.append("8"),
        _ => s.append("9"),
    }
    proof {
        assert(s@ =~= old(s)@.push(dec_digit(d as nat)));
    }
}

/// Renders `n` in decimal, as identifiers appear in acknowledgement
/// attributes.
pub fn u64_to_dec_string(n: u64) -> (s: String)
    ensures
        s@ == dec_chars(n as nat),
{
    let mut digits: Vec<u64> = Vec::new();
    let mut m: u64 = n;
    if m == 0 {
        let mut s = String::new();
        push_digit(&mut s, 0);
        proof {
            assert(s@ =~= dec_chars(0));
        }
        return s;
    }
    while m > 0
        invariant
            m > 0 ==> dec_chars(n as nat) == dec_chars(m as nat) + rev_digit_chars(digits@),
            m == 0 ==> dec_chars(n as nat) == rev_digit_chars(digits@),
            forall|j: int| 0 <= j < digits.len() ==> digits@[j] < 10,
            m <= n,
            n > 0,
        decreases m,
    {
        let d = m % 10;
        digits.push(d);
        let m2 = m / 10;
        proof {
            let ds2 = digits@;
            assert(rev_digit_chars(ds2) =~= seq![dec_digit(d as nat)] + rev_digit_chars(
                ds2.drop_last(),
            ));
            if m2 > 0 {
                assert(m >= 10);
                assert(dec_chars(m as nat) == dec_chars((m as nat) / 10).push(
                    dec_digit((m as nat) % 10),
                ));
                assert(dec_chars(m2 as nat) + rev_digit_chars(ds2) =~= dec_chars(m as nat)
                    + rev_digit_chars(ds2.drop_last()));
            } else {
                assert(m < 10);
                assert(dec_chars(m as nat) =~= seq![dec_digit(m as nat)]);
                assert(rev_digit_chars(ds2) =~= dec_chars(m as nat) + rev_digit_chars(
                    ds2.drop_last(),
                ));
            }
        }
        m = m2;
    }
    let ghost target = dec_chars(n as nat);
    let mut s = String::new();
    let mut i: usize = digits.len();
    while i > 0
        invariant
            i <= digits.len(),
            target == rev_digit_chars(digits@),
            forall|j: int| 0 <= j < digits.len() ==> digits@[j] < 10,
            s@ =~= target.take(digits.len() - i),
        decreases i,
    {
        i = i - 1;
        let d = digits[i];
        push_digit(&mut s, d);
        proof {
            assert(target[digits@.len() - 1 - i] == dec_digit(d as nat));
            assert(s@ =~= target.take(digits@.len() - i));
        }
    }
    proof {
        assert(s@ =~= target);
    }
    s
}

} // verus!
