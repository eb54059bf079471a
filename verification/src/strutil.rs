//! Small string helpers: character-wise equality of `&str`, appending a
//! single character, and rendering an integer in decimal.

use vstd::prelude::*;

verus! {

/// The character for one decimal digit.
pub open spec fn digit_char(d: int) -> char {
    if d == 0 {
        '0'
    } else if d == 1 {
        '1'
    } else if d == 2 {
        '2'
    } else if d == 3 {
        '3'
    } else if d == 4 {
        '4'
    } else if d == 5 {
        '5'
    } else if d == 6 {
        '6'
    } else if d == 7 {
        '7'
    } else if d == 8 {
        '8'
    } else {
        '9'
    }
}

/// The decimal digits of `n`, most significant first.
pub open spec fn spec_dec(n: int) -> Seq<char>
    decreases n,
{
    if n < 0 {
        Seq::empty()
    } else if n < 10 {
        seq![digit_char(n)]
    } else {
        spec_dec(n / 10).push(digit_char(n % 10))
    }
}

/// Relies on std's `String::push`: appends exactly the one character.
#[verifier::external_body]
pub fn push_char(s: &mut String, c: char)
    ensures
        final(s)@ == old(s)@.push(c),
{
    s.push(c);
}

fn digit_to_char(d: u8) -> (c: char)
    requires
        d < 10,
    ensures
        c == digit_char(d as int),
{
    if d == 0 {
        '0'
    } else if d == 1 {
        '1'
    } else if d == 2 {
        '2'
    } else if d == 3 {
        '3'
    } else if d == 4 {
        '4'
    } else if d == 5 {
        '5'
    } else if d == 6 {
        '6'
    } else if d == 7 {
        '7'
    } else if d == 8 {
        '8'
    } else {
        '9'
    }
}

/// The decimal rendering of a byte, without sign or padding.
pub fn u8_to_dec(n: u8) -> (s: String)
    ensures
        s@ == spec_dec(n as int),
{
    let mut s = String::new();
    if n >= 100 {
        push_char(&mut s, digit_to_char(n / 100));
    }
    if n >= 10 {
        push_char(&mut s, digit_to_char((n / 10) % 10));
    }
    push_char(&mut s, digit_to_char(n % 10));
    proof {
        if n >= 100 {
            assert(n / 10 >= 10 && n / 10 < 100);
            assert((n as int / 10) / 10 == n as int / 100) by (nonlinear_arith);
            assert(spec_dec(n as int) == spec_dec(n as int / 10).push(digit_char(n as int % 10)));
            assert(spec_dec(n as int / 10) == spec_dec(n as int / 10 / 10).push(
                digit_char(n as int / 10 % 10),
            ));
            assert(spec_dec(n as int / 10 / 10) == seq![digit_char(n as int / 10 / 10)]);
            assert(s@ =~= spec_dec(n as int));
        } else if n >= 10 {
            assert(n / 10 < 10);
            assert((n / 10) % 10 == n / 10);
            assert(spec_dec(n as int) == spec_dec(n as int / 10).push(digit_char(n as int % 10)));
            assert(spec_dec(n as int / 10) == seq![digit_char(n as int / 10)]);
            assert(s@ =~= spec_dec(n as int));
        } else {
            assert(n % 10 == n);
            assert(s@ =~= spec_dec(n as int));
        }
    }
    s
}

/// Character-wise equality of two string slices.
pub fn str_eq(a: &str, b: &str) -> (r: bool)
    ensures
        r == (a@ == b@),
{
    let alen = a.unicode_len();
    let blen = b.unicode_len();
    if alen != blen {
        return false;
    }
    let mut i: usize = 0;
    while i < alen
        invariant
            i <= alen,
            alen == a@.len(),
            alen == b@.len(),
            forall|j: int| 0 <= j < i ==> a@[j] == b@[j],
        decreases alen - i,
    {
        if a.get_char(i) != b.get_char(i) {
            return false;
        }
        i += 1;
    }
    proof {
        assert(a@ =~= b@);
    }
    true
}

} // verus!
