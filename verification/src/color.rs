//! Color texts: reading `#rrggbb` / `#rrggbbaa` color texts into their byte
//! channels and writing channels back as `#rrggbbaa`.

use vstd::prelude::*;
use vstd::string::*;
use vstd::utf8::*;

verus! {

/// The value of an ASCII hexadecimal digit byte (either case), if it is one.
pub open spec fn hex_digit_value(b: u8) -> Option<u8> {
    if 0x30 <= b && b <= 0x39 {
        Some((b - 0x30) as u8)
    } else if 0x61 <= b && b <= 0x66 {
        Some((b - 0x61 + 10) as u8)
    } else if 0x41 <= b && b <= 0x46 {
        Some((b - 0x41 + 10) as u8)
    } else {
        None
    }
}

/// Hexadecimal digits are read without regard to case: each upper-case digit
/// `A` to `F` has the value of its lower-case counterpart, and the digits
/// `0`-`9`, `a`-`f` read as 0 to 15 in that order.
pub proof fn lemma_hex_digit_values(b: u8)
    ensures
        0x41 <= b <= 0x46 ==> hex_digit_value(b) == hex_digit_value((b + 0x20) as u8),
        hex_digit_value(b) matches Some(v) ==> v < 16,
        0x30 <= b <= 0x39 ==> hex_digit_value(b) == Some((b - 0x30) as u8),
        0x61 <= b <= 0x66 ==> hex_digit_value(b) == Some((b - 0x57) as u8),
        hex_digit_value(b) is Some <==> (0x30 <= b <= 0x39 || 0x41 <= b <= 0x46 || 0x61 <= b
            <= 0x66),
{
}

/// Reading a color text ignores the case of its hexadecimal digits: upper-
/// casing any digit `a`-`f` of a readable text gives the same channels.
pub proof fn lemma_hex_color_case_insensitive(b: Seq<u8>, i: int)
    requires
        0 <= i < b.len(),
        0x61 <= b[i] <= 0x66,
    ensures
        hex_color_of(b.update(i, (b[i] - 0x20) as u8)) == hex_color_of(b),
{
    let c = b.update(i, (b[i] - 0x20) as u8);
    assert forall|j: int| 0 <= j < b.len() implies hex_digit_value(#[trigger] c[j])
        == hex_digit_value(b[j]) && (c[j] == 0x23 <==> b[j] == 0x23) && (c[j] == 0x2b <==> b[j]
        == 0x2b) by {
        if j == i {
            lemma_hex_digit_values(c[j]);
        }
    }
    lemma_leading_hashes_same(b, c);
}

/// Texts whose bytes agree on being `#` start with the same number of `#`s.
proof fn lemma_leading_hashes_same(b: Seq<u8>, c: Seq<u8>)
    requires
        b.len() == c.len(),
        forall|j: int| 0 <= j < b.len() ==> (#[trigger] c[j] == 0x23 <==> b[j] == 0x23),
    ensures
        leading_hashes(b) == leading_hashes(c),
    decreases b.len(),
{
    if b.len() > 0 && b[0] == 0x23 {
        assert forall|j: int| 0 <= j < b.drop_first().len() implies (#[trigger] c.drop_first()[j]
            == 0x23 <==> b.drop_first()[j] == 0x23) by {
            assert(c.drop_first()[j] == c[j + 1]);
        }
        lemma_leading_hashes_same(b.drop_first(), c.drop_first());
    }
}

/// The value `u8::from_str_radix` reads in base 16 from the two bytes
/// `b0 b1`: two hexadecimal digits, or a `+` sign and one digit.
pub open spec fn hex_pair_value(b0: u8, b1: u8) -> Option<u8> {
    match (hex_digit_value(b0), hex_digit_value(b1)) {
        (Some(h), Some(l)) => Some((h * 16 + l) as u8),
        (None, Some(l)) => if b0 == 0x2b {
            Some(l)
        } else {
            None
        },
        _ => None,
    }
}

/// The number of `#` bytes a text starts with.
pub open spec fn leading_hashes(b: Seq<u8>) -> nat
    decreases b.len(),
{
    if b.len() > 0 && b[0] == 0x23 {
        1 + leading_hashes(b.drop_first())
    } else {
        0
    }
}

/// The channels (red, green, blue, alpha) of the color text with bytes `b`:
/// after any leading `#`s, at least six bytes that read as three two-digit
/// hexadecimal values, then an alpha value from the next two bytes when
/// there are at least eight (255, opaque, otherwise).
pub open spec fn hex_color_of(b: Seq<u8>) -> Option<(u8, u8, u8, u8)> {
    let s = leading_hashes(b) as int;
    if b.len() - s < 6 {
        None
    } else {
        match (
            hex_pair_value(b[s], b[s + 1]),
            hex_pair_value(b[s + 2], b[s + 3]),
            hex_pair_value(b[s + 4], b[s + 5]),
        ) {
            (Some(r), Some(g), Some(bl)) => if b.len() - s >= 8 {
                match hex_pair_value(b[s + 6], b[s + 7]) {
                    Some(a) => Some((r, g, bl, a)),
                    None => None,
                }
            } else {
                Some((r, g, bl, 255u8))
            },
            _ => None,
        }
    }
}

/// Reading the color text with bytes `b` cuts it only on character
/// boundaries: each two-byte piece that is read starts and ends on one.
pub open spec fn hex_color_readable(b: Seq<u8>) -> bool {
    let s = leading_hashes(b) as int;
    let first = hex_pair_value(b[s], b[s + 1]) is Some;
    let second = first && hex_pair_value(b[s + 2], b[s + 3]) is Some;
    let third = second && hex_pair_value(b[s + 4], b[s + 5]) is Some;
    b.len() - s >= 6 ==> {
        &&& is_char_boundary(b, s + 2)
        &&& first ==> is_char_boundary(b, s + 4)
        &&& second ==> is_char_boundary(b, s + 6)
        &&& (third && b.len() - s >= 8) ==> is_char_boundary(b, s + 8)
    }
}

/// The value of a hexadecimal digit byte.
fn digit_value(b: u8) -> (res: Option<u8>)
    ensures
        res == hex_digit_value(b),
{
    if 0x30 <= b && b <= 0x39 {
        Some(b - 0x30)
    } else if 0x61 <= b && b <= 0x66 {
        Some(b - 0x61 + 10)
    } else if 0x41 <= b && b <= 0x46 {
        Some(b - 0x41 + 10)
    } else {
        None
    }
}

/// The base-16 value of the two bytes `b0 b1`.
fn pair_value(b0: u8, b1: u8) -> (res: Option<u8>)
    ensures
        res == hex_pair_value(b0, b1),
{
    match (digit_value(b0), digit_value(b1)) {
        (Some(h), Some(l)) => Some(h * 16 + l),
        (None, Some(l)) => if b0 == 0x2b {
            Some(l)
        } else {
            None
        },
        _ => None,
    }
}

/// The number of `#` bytes the bytes `b` start with.
fn count_leading_hashes(b: &[u8]) -> (res: usize)
    ensures
        res == leading_hashes(b@),
        res <= b@.len(),
{
    let mut s: usize = 0;
    assert(b@.skip(0) =~= b@);
    while s < b.len() && b[s] == 0x23
        invariant
            s <= b@.len(),
            leading_hashes(b@) == s + leading_hashes(b@.skip(s as int)),
        decreases b@.len() - s,
    {
        assert(b@.skip(s as int).drop_first() =~= b@.skip(s + 1));
        s = s + 1;
    }
    s
}

/// Whether the color text `hex` can be read without cutting a character.
pub fn hex_color_is_readable(hex: &str) -> (res: bool)
    ensures
        res == hex_color_readable(encode_utf8(hex@)),
{
    let b = hex.as_bytes();
    let n = b.len();
    let s = count_leading_hashes(b);
    if n - s < 6 {
        return true;
    }
    if !hex.is_char_boundary(s + 2) {
        return false;
    }
    if pair_value(b[s], b[s + 1]).is_none() {
        return true;
    }
    if !hex.is_char_boundary(s + 4) {
        return false;
    }
    if pair_value(b[s + 2], b[s + 3]).is_none() {
        return true;
    }
    if !hex.is_char_boundary(s + 6) {
        return false;
    }
    if pair_value(b[s + 4], b[s + 5]).is_none() || n - s < 8 {
        return true;
    }
    hex.is_char_boundary(s + 8)
}

/// The channels of the color text `hex` (`#rrggbb` or `#rrggbbaa`, with
/// any number of leading `#`s), or `None` when it is not one.
pub fn parse_hex_color(hex: &str) -> (res: Option<(u8, u8, u8, u8)>)
    requires
        hex_color_readable(encode_utf8(hex@)),
    ensures
        res == hex_color_of(encode_utf8(hex@)),
{
    let b = hex.as_bytes();
    let n = b.len();
    let s = count_leading_hashes(b);
    if n - s < 6 {
        return None;
    }
    let r = match pair_value(b[s], b[s + 1]) {
        Some(v) => v,
        None => return None,
    };
    let g = match pair_value(b[s + 2], b[s + 3]) {
        Some(v) => v,
        None => return None,
    };
    let bl = match pair_value(b[s + 4], b[s + 5]) {
        Some(v) => v,
        None => return None,
    };
    let a = if n - s >= 8 {
        match pair_value(b[s + 6], b[s + 7]) {
            Some(v) => v,
            None => return None,
        }
    } else {
        255u8
    };
    Some((r, g, bl, a))
}

/// The lower-case hexadecimal digit for `d` (0 to 15).
pub open spec fn hex_digit_char(d: int) -> char {
    seq!['0', '1', '2', '3', '4', '5', '6', '7', '8', '9', 'a', 'b', 'c', 'd', 'e', 'f'][d]
}

/// The two lower-case hexadecimal digits of a byte.
pub open spec fn hex2(v: u8) -> Seq<char> {
    seq![hex_digit_char((v / 16) as int), hex_digit_char((v % 16) as int)]
}

/// The color text `#rrggbbaa` of four channels.
pub open spec fn hex_color_text(r: u8, g: u8, b: u8, a: u8) -> Seq<char> {
    seq!['#'] + hex2(r) + hex2(g) + hex2(b) + hex2(a)
}

/// The lower-case hexadecimal digit for `d`.
fn hex_digit(d: u8) -> (c: char)
    requires
        d < 16,
    ensures
        c == hex_digit_char(d as int),
{
    match d {
        0 => '0',
        1 => '1',
        2 => '2',
        3 => '3',
        4 => '4',
        5 => '5',
        6 => '6',
        7 => '7',
        8 => '8',
        9 => '9',
        10 => 'a',
        11 => 'b',
        12 => 'c',
        13 => 'd',
        14 => 'e',
        _ => 'f',
    }
}

/// The color text `#rrggbbaa` of four channels.
pub fn format_hex_color(r: u8, g: u8, b: u8, a: u8) -> (res: String)
    ensures
        res@ == hex_color_text(r, g, b, a),
{
    let mut s = String::new();
    s.push('#');
    s.push(hex_digit(r / 16));
    s.push(hex_digit(r % 16));
    s.push(hex_digit(g / 16));
    s.push(hex_digit(g % 16));
    s.push(hex_digit(b / 16));
    s.push(hex_digit(b % 16));
    s.push(hex_digit(a / 16));
    s.push(hex_digit(a % 16));
    assert(s@ =~= hex_color_text(r, g, b, a));
    s
}

/// The byte of a lower-case hexadecimal digit character is that digit's
/// byte, and it reads back as the digit.
proof fn lemma_hex_digit_byte(d: int)
    requires
        0 <= d < 16,
    ensures
        (hex_digit_char(d) as u8) <= 0x7f,
        hex_digit_value(hex_digit_char(d) as u8) == Some(d as u8),
{
    if d == 0 {
    } else if d == 1 {
    } else if d == 2 {
    } else if d == 3 {
    } else if d == 4 {
    } else if d == 5 {
    } else if d == 6 {
    } else if d == 7 {
    } else if d == 8 {
    } else if d == 9 {
    } else if d == 10 {
    } else if d == 11 {
    } else if d == 12 {
    } else if d == 13 {
    } else if d == 14 {
    } else {
    }
}

/// Reading back a written color text gives the same channels.
pub proof fn lemma_hex_color_round_trip(r: u8, g: u8, b: u8, a: u8)
    ensures
        hex_color_readable(encode_utf8(hex_color_text(r, g, b, a))),
        hex_color_of(encode_utf8(hex_color_text(r, g, b, a))) == Some((r, g, b, a)),
{
    let t = hex_color_text(r, g, b, a);
    assert forall|d: int| 0 <= d < 16 implies '\0' <= #[trigger] hex_digit_char(d) <= '\u{7f}' && hex_digit_value(hex_digit_char(d) as u8) == Some(d as u8) by {
        lemma_hex_digit_byte(d);
    }
    assert(t.len() == 9);
    assert(is_ascii_chars(t));
    is_ascii_chars_encode_utf8(t);
    let e = encode_utf8(t);
    assert(e[0] == 0x23);
    assert(e.drop_first()[0] == e[1]);
    assert(leading_hashes(e.drop_first()) == 0);
    assert(leading_hashes(e) == 1);
    assert(hex_pair_value(e[1], e[2]) == Some(r));
    assert(hex_pair_value(e[3], e[4]) == Some(g));
    assert(hex_pair_value(e[5], e[6]) == Some(b));
    assert(hex_pair_value(e[7], e[8]) == Some(a));
    encode_utf8_valid_utf8(t);
    is_char_boundary_start_end_of_seq(e);
    is_char_boundary_iff_not_is_continuation_byte(e, 3);
    is_char_boundary_iff_not_is_continuation_byte(e, 5);
    is_char_boundary_iff_not_is_continuation_byte(e, 7);
}

} // verus!
