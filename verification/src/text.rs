//! Small helpers on strings.

use vstd::prelude::*;
use vstd::string::*;
use vstd::utf8::*;

verus! {

/// `String::push` appends exactly the given character and touches nothing
/// else in the string.
pub assume_specification[ String::push ](s: &mut String, c: char)
    ensures
        final(s)@ == old(s)@.push(c),
;

/// Two strings with the same bytes hold the same characters.
pub proof fn lemma_same_bytes_same_chars(a: Seq<char>, b: Seq<char>)
    requires
        encode_utf8(a) == encode_utf8(b),
    ensures
        a == b,
{
    encode_utf8_decode_utf8(a);
    encode_utf8_decode_utf8(b);
}

/// Whether two strings hold the same characters.
pub fn str_eq(a: &str, b: &str) -> (r: bool)
    ensures
        r == (a@ == b@),
{
    let x = a.as_bytes();
    let y = b.as_bytes();
    if x.len() != y.len() {
        return false;
    }
    let mut i: usize = 0;
    while i < x.len()
        invariant
            x@ == a.spec_bytes(),
            y@ == b.spec_bytes(),
            x@.len() == y@.len(),
            i <= x@.len(),
            forall|k: int| 0 <= k < i ==> x@[k] == y@[k],
        decreases x@.len() - i,
    {
        if x[i] != y[i] {
            return false;
        }
        i += 1;
    }
    proof {
        assert(x@ =~= y@);
        lemma_same_bytes_same_chars(a@, b@);
    }
    true
}

/// The decimal digit for a value below ten.
pub open spec fn digit_char(d: int) -> char {
    if d == 0 {
        '0'
    } else if d == 1 {
        '1'
    } else if d == 2 {
        '2'
    } else if d == 3 {
        '3'
    } else if d == 4 {
        '4'
    } else if d == 5 {
        '5'
    } else if d == 6 {
        '6'
    } else if d == 7 {
        '7'
    } else if d == 8 {
        '8'
    } else {
        '9'
    }
}

/// A number in decimal digits, without leading zeros.
pub open spec fn decimal(n: nat) -> Seq<char>
    decreases n,
{
    if n < 10 {
        seq![digit_char(n as int)]
    } else {
        decimal(n / 10).push(digit_char((n % 10) as int))
    }
}

/// A length in hundredths of a pixel, rounded to the nearest; a half
/// rounds up.
pub open spec fn hundredths(v: nat) -> nat {
    (v * 100 + 128) / 256
}

/// A length in pixels with two decimals.
pub open spec fn pixels_text(v: nat) -> Seq<char> {
    decimal(hundredths(v) / 100) + seq![
        '.',
        digit_char((hundredths(v) % 100 / 10) as int),
        digit_char((hundredths(v) % 10) as int),
    ]
}

/// A width and a height in pixels, in brackets.
pub open spec fn size_text(width: nat, height: nat) -> Seq<char> {
    seq!['('] + pixels_text(width) + seq![',', ' '] + pixels_text(height) + seq![')']
}

fn digit(d: u64) -> (c: char)
    requires
        d < 10,
    ensures
        c == digit_char(d as int),
{
    if d == 0 {
        '0'
    } else if d == 1 {
        '1'
    } else if d == 2 {
        '2'
    } else if d == 3 {
        '3'
    } else if d == 4 {
        '4'
    } else if d == 5 {
        '5'
    } else if d == 6 {
        '6'
    } else if d == 7 {
        '7'
    } else if d == 8 {
        '8'
    } else {
        '9'
    }
}

/// Appends a number in decimal digits.
pub fn push_decimal(s: &mut String, n: u64)
    ensures
        final(s)@ == old(s)@ + decimal(n as nat),
    decreases n,
{
    if n >= 10 {
        push_decimal(s, n / 10);
    }
    s.push(digit(n % 10));
    assert(s@ =~= old(s)@ + decimal(n as nat));
}

/// Appends a length in pixels with two decimals.
pub fn push_pixels(s: &mut String, v: u64)
    ensures
        final(s)@ == old(s)@ + pixels_text(v as nat),
{
    let h: u64 = ((v as u128 * 100 + 128) / 256) as u64;
    push_decimal(s, h / 100);
    s.push('.');
    s.push(digit(h % 100 / 10));
    s.push(digit(h % 10));
    assert(s@ =~= old(s)@ + pixels_text(v as nat));
}

/// A width and a height in pixels, in brackets.
pub fn size_label(width: u64, height: u64) -> (s: String)
    ensures
        s@ == size_text(width as nat, height as nat),
{
    let mut s = String::new();
    s.push('(');
    push_pixels(&mut s, width);
    s.push(',');
    s.push(' ');
    push_pixels(&mut s, height);
    s.push(')');
    assert(s@ =~= size_text(width as nat, height as nat));
    s
}

} // verus!
