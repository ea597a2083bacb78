//! A solid RGBA colour and its `#RRGGBBAA` text form.

use vstd::prelude::*;
use vstd::string::*;
use vstd::utf8::*;

verus! {

/// A solid colour of four 8-bit channels.
#[derive(Debug, Clone, Copy, PartialEq, Eq, Structural)]
pub struct Color {
    pub r: u8,
    pub g: u8,
    pub b: u8,
    pub a: u8,
}

/// Why a text is not a hex colour.
#[derive(Debug, Clone, Copy, PartialEq, Eq, Structural)]
pub enum ColorError {
    /// The text is empty.
    Empty,
    /// The text does not start with `#` or has a length that no format has.
    InvalidFormat,
    /// The text has the shape of a format, but one of its digits is none.
    InvalidDigit,
}

/// The lower-case hexadecimal digit for a value below sixteen.
pub open spec fn hex_digit_char(n: int) -> char {
    if n == 0 {
        '0'
    } else if n == 1 {
        '1'
    } else if n == 2 {
        '2'
    } else if n == 3 {
        '3'
    } else if n == 4 {
        '4'
    } else if n == 5 {
        '5'
    } else if n == 6 {
        '6'
    } else if n == 7 {
        '7'
    } else if n == 8 {
        '8'
    } else if n == 9 {
        '9'
    } else if n == 10 {
        'a'
    } else if n == 11 {
        'b'
    } else if n == 12 {
        'c'
    } else if n == 13 {
        'd'
    } else if n == 14 {
        'e'
    } else {
        'f'
    }
}

/// The two hexadecimal digits of a byte, high digit first.
pub open spec fn hex_pair(b: u8) -> Seq<char> {
    seq![hex_digit_char(b as int / 16), hex_digit_char(b as int % 16)]
}

/// The text form of a colour: `#`, then red, green, blue and alpha, two
/// lower-case hexadecimal digits each.
pub open spec fn hex_text(c: Color) -> Seq<char> {
    seq!['#'] + hex_pair(c.r) + hex_pair(c.g) + hex_pair(c.b) + hex_pair(c.a)
}

/// Whether a byte is an ASCII hexadecimal digit of either case.
pub open spec fn is_hex_digit(b: u8) -> bool {
    (48 <= b <= 57) || (97 <= b <= 102) || (65 <= b <= 70)
}

/// The value of a hexadecimal digit.
pub open spec fn hex_value(b: u8) -> int {
    if 48 <= b <= 57 {
        b - 48
    } else if 97 <= b <= 102 {
        b - 87
    } else {
        b - 55
    }
}

/// The channel that one digit of a short form stands for: the digit twice.
pub open spec fn short_channel(d: u8) -> Option<u8> {
    if is_hex_digit(d) {
        Some((17 * hex_value(d)) as u8)
    } else {
        None
    }
}

/// The channel that two bytes of a long form stand for. Besides two digits,
/// a plus sign followed by one digit is read as that digit.
pub open spec fn long_channel(hi: u8, lo: u8) -> Option<u8> {
    if is_hex_digit(hi) && is_hex_digit(lo) {
        Some((16 * hex_value(hi) + hex_value(lo)) as u8)
    } else if hi == 43 && is_hex_digit(lo) {
        Some(hex_value(lo) as u8)
    } else {
        None
    }
}

/// The colour of four channels, if all four were read.
pub open spec fn channels(
    r: Option<u8>,
    g: Option<u8>,
    b: Option<u8>,
    a: Option<u8>,
) -> Result<Color, ColorError> {
    if r is Some && g is Some && b is Some && a is Some {
        Ok(Color { r: r->0, g: g->0, b: b->0, a: a->0 })
    } else {
        Err(ColorError::InvalidDigit)
    }
}

/// What the bytes of a text mean as a colour. The formats are `#RGB`,
/// `#RGBA`, `#RRGGBB` and `#RRGGBBAA`; a format without alpha is opaque.
pub open spec fn parse_hex(t: Seq<u8>) -> Result<Color, ColorError> {
    if t.len() == 0 {
        Err(ColorError::Empty)
    } else if t[0] != 35 {
        Err(ColorError::InvalidFormat)
    } else if t.len() == 4 {
        channels(short_channel(t[1]), short_channel(t[2]), short_channel(t[3]), Some(255u8))
    } else if t.len() == 5 {
        channels(
            short_channel(t[1]),
            short_channel(t[2]),
            short_channel(t[3]),
            short_channel(t[4]),
        )
    } else if t.len() == 7 {
        channels(
            long_channel(t[1], t[2]),
            long_channel(t[3], t[4]),
            long_channel(t[5], t[6]),
            Some(255u8),
        )
    } else if t.len() == 9 {
        channels(
            long_channel(t[1], t[2]),
            long_channel(t[3], t[4]),
            long_channel(t[5], t[6]),
            long_channel(t[7], t[8]),
        )
    } else {
        Err(ColorError::InvalidFormat)
    }
}

/// `hex_color::HexColor::parse` on the given text. The crate reads the four
/// formats that `parse_hex` describes, without regard to the digits' case,
/// and reports an empty text, a wrong shape and a wrong digit apart. It reads
/// each channel of a long form with `u8::from_str_radix`, which also takes a
/// plus sign in place of the first digit.
#[verifier::external_body]
fn hex_color_parse(s: &str) -> (r: Result<Color, ColorError>)
    ensures
        r == parse_hex(s.spec_bytes()),
{
    match hex_color::HexColor::parse(s) {
        Ok(c) => Ok(Color { r: c.r, g: c.g, b: c.b, a: c.a }),
        Err(hex_color::ParseHexColorError::Empty) => Err(ColorError::Empty),
        Err(hex_color::ParseHexColorError::InvalidFormat) => Err(ColorError::InvalidFormat),
        Err(_) => Err(ColorError::InvalidDigit),
    }
}

/// Reads a colour from its text form.
pub fn parse_solid(s: &str) -> (r: Result<Color, ColorError>)
    ensures
        r == parse_hex(s.spec_bytes()),
{
    hex_color_parse(s)
}

fn hex_digit(n: u8) -> (c: char)
    requires
        n < 16,
    ensures
        c == hex_digit_char(n as int),
{
    if n == 0 {
        '0'
    } else if n == 1 {
        '1'
    } else if n == 2 {
        '2'
    } else if n == 3 {
        '3'
    } else if n == 4 {
        '4'
    } else if n == 5 {
        '5'
    } else if n == 6 {
        '6'
    } else if n == 7 {
        '7'
    } else if n == 8 {
        '8'
    } else if n == 9 {
        '9'
    } else if n == 10 {
        'a'
    } else if n == 11 {
        'b'
    } else if n == 12 {
        'c'
    } else if n == 13 {
        'd'
    } else if n == 14 {
        'e'
    } else {
        'f'
    }
}

fn push_hex_pair(s: &mut String, b: u8)
    ensures
        final(s)@ == old(s)@ + hex_pair(b),
{
    s.push(hex_digit(b / 16));
    s.push(hex_digit(b % 16));
    assert(s@ =~= old(s)@ + hex_pair(b));
}

impl Color {
    /// The text form of this colour.
    pub fn to_hex(&self) -> (s: String)
        ensures
            s@ == hex_text(*self),
    {
        let mut s = String::new();
        s.push('#');
        assert(s@ =~= seq!['#']);
        push_hex_pair(&mut s, self.r);
        push_hex_pair(&mut s, self.g);
        push_hex_pair(&mut s, self.b);
        push_hex_pair(&mut s, self.a);
        s
    }
}

/// The lower-case digit of a value below sixteen is read back as that value.
proof fn lemma_digit_value(n: int)
    requires
        0 <= n < 16,
    ensures
        is_hex_digit(hex_digit_char(n) as u8),
        hex_value(hex_digit_char(n) as u8) == n,
        '\0' <= hex_digit_char(n) <= '\u{7f}',
{
}

/// Reading the text form of a colour gives the colour back.
pub proof fn lemma_color_round_trip(c: Color)
    ensures
        parse_hex(encode_utf8(hex_text(c))) == Ok::<Color, ColorError>(c),
{
    let t = hex_text(c);
    assert(t.len() == 9);
    assert(t[0] == '#');
    assert(t[1] == hex_digit_char(c.r as int / 16));
    assert(t[2] == hex_digit_char(c.r as int % 16));
    assert(t[3] == hex_digit_char(c.g as int / 16));
    assert(t[4] == hex_digit_char(c.g as int % 16));
    assert(t[5] == hex_digit_char(c.b as int / 16));
    assert(t[6] == hex_digit_char(c.b as int % 16));
    assert(t[7] == hex_digit_char(c.a as int / 16));
    assert(t[8] == hex_digit_char(c.a as int % 16));
    lemma_digit_value(c.r as int / 16);
    lemma_digit_value(c.r as int % 16);
    lemma_digit_value(c.g as int / 16);
    lemma_digit_value(c.g as int % 16);
    lemma_digit_value(c.b as int / 16);
    lemma_digit_value(c.b as int % 16);
    lemma_digit_value(c.a as int / 16);
    lemma_digit_value(c.a as int % 16);
    assert(is_ascii_chars(t));
    is_ascii_chars_encode_utf8(t);
    let e = encode_utf8(t);
    assert(e.len() == 9);
    assert(e[0] == 35u8);
    assert(e[1] == t[1] as u8);
    assert(e[2] == t[2] as u8);
    assert(e[3] == t[3] as u8);
    assert(e[4] == t[4] as u8);
    assert(e[5] == t[5] as u8);
    assert(e[6] == t[6] as u8);
    assert(e[7] == t[7] as u8);
    assert(e[8] == t[8] as u8);
}

} // verus!
